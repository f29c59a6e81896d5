//! Properties of the simulation that hold across all inputs, proved over the
//! model that `Game::process` follows.

use vstd::prelude::*;

use crate::game::{
    advance, bump, frame_moves, frames_until, goal_x, lemma_advance_wf, lemma_step_wf,
    lemma_tick_wf, clamp_spec, initial_model, left_start_x, next_clock, paddle_velocity, paddle_max, paddle_min, right_start_x, serve_velocity, step, tick,
    Action, Direction, Entity, Error, Event, GameConfiguration, GameModel, Player, State,
    FRAME_TIME, PADDLE_SPEED,
};

verus! {

/// Number of Goal events in `es` credited to `p`.
pub open spec fn goals_for(es: Seq<Event>, p: Player) -> nat
    decreases es.len(),
{
    if es.len() == 0 {
        0
    } else {
        let here: nat = match es.last() {
            Event::Goal { player, .. } => if player == p { 1 } else { 0 },
            _ => 0,
        };
        goals_for(es.drop_last(), p) + here
    }
}

/// A score held at the top of `u8`.
pub open spec fn capped(s: int) -> int {
    if s < 255 { s } else { 255 }
}

pub proof fn lemma_goals_for_concat(a: Seq<Event>, b: Seq<Event>, p: Player)
    ensures
        goals_for(a + b, p) == goals_for(a, p) + goals_for(b, p),
    decreases b.len(),
{
    if b.len() == 0 {
        assert(a + b =~= a);
    } else {
        assert((a + b).drop_last() =~= a + b.drop_last());
        lemma_goals_for_concat(a, b.drop_last(), p);
    }
}

proof fn lemma_no_goals(es: Seq<Event>, p: Player)
    requires
        forall|i: int| 0 <= i < es.len() ==> !(#[trigger] es[i] is Goal),
    ensures
        goals_for(es, p) == 0,
    decreases es.len(),
{
    if es.len() > 0 {
        assert(!(es[es.len() - 1] is Goal));
        lemma_no_goals(es.drop_last(), p);
    }
}

proof fn lemma_one_goal(g: Event, p: Player)
    ensures
        goals_for(seq![g], p) == match g {
            Event::Goal { player, .. } => if player == p { 1int } else { 0 },
            _ => 0,
        },
{
    assert(seq![g].drop_last() =~= Seq::<Event>::empty());
    assert(goals_for(Seq::<Event>::empty(), p) == 0);
    assert(seq![g].last() == g);
}

proof fn lemma_frame_moves_no_goal(m: GameModel, p: Player)
    ensures
        goals_for(frame_moves(m), p) == 0,
{
    lemma_no_goals(frame_moves(m), p);
}

/// Before the first Initialize, every other action fails with
/// NotInitialized, emits nothing and changes nothing.
pub proof fn law_uninitialized_rejects(m: GameModel, a: Action)
    requires
        m.state == State::Uninitialized,
        !(a is Initialize),
    ensures
        step(m, a).0 == m,
        step(m, a).1 == Seq::<Event>::empty(),
        step(m, a).2 == Err::<(), Error>(Error::NotInitialized),
{
}

/// Initialize, from any state, emits exactly one Create event per entity at
/// its configured starting position, puts the entities there and leaves the
/// match Ready.
pub proof fn law_initialize_creates(m: GameModel)
    ensures
        step(m, Action::Initialize).0.left.x == left_start_x(m.cfg),
        step(m, Action::Initialize).0.left.y == 0,
        step(m, Action::Initialize).0.right.x == right_start_x(m.cfg),
        step(m, Action::Initialize).0.right.y == 0,
        step(m, Action::Initialize).0.ball.x == 0,
        step(m, Action::Initialize).0.ball.y == 0,
        step(m, Action::Initialize).1 == seq![
            Event::Create { id: 0, entity: Entity::LeftPaddle, x: left_start_x(m.cfg) as i64, y: 0 },
            Event::Create { id: 1, entity: Entity::RightPaddle, x: right_start_x(m.cfg) as i64, y: 0 },
            Event::Create { id: 2, entity: Entity::Ball, x: 0, y: 0 },
        ],
        step(m, Action::Initialize).0.state == State::Ready,
        step(m, Action::Initialize).2 is Ok,
{
}

/// Start succeeds exactly when the match was initialized; then it emits one
/// RoundStart and the match is Running, also when it was Running already.
pub proof fn law_start(m: GameModel)
    ensures
        (step(m, Action::Start).2 is Ok) <==> m.state != State::Uninitialized,
        m.state != State::Uninitialized ==> {
            &&& step(m, Action::Start).1 == seq![Event::RoundStart]
            &&& step(m, Action::Start).0 == (GameModel { state: State::Running, ..m })
        },
{
}

/// Two Starts in a row emit a RoundStart each.
pub proof fn law_start_twice(m: GameModel)
    requires
        m.state != State::Uninitialized,
    ensures
        step(m, Action::Start).1 == seq![Event::RoundStart],
        step(step(m, Action::Start).0, Action::Start).1 == seq![Event::RoundStart],
        step(step(m, Action::Start).0, Action::Start).0.state == State::Running,
{
}

/// Reset puts both paddles at y = 0 and the ball at the origin whatever came
/// before, serves along x at `((seed % 2) - 1) * 300`, and keeps the scores.
pub proof fn law_reset(m: GameModel, seed: i64)
    requires
        m.state != State::Uninitialized,
    ensures
        ({
            let r = step(m, Action::Reset { seed });
            &&& r.2 is Ok
            &&& r.0.state == State::Ready
            &&& r.0.left.y == 0
            &&& r.0.right.y == 0
            &&& r.0.ball.x == 0
            &&& r.0.ball.y == 0
            &&& r.0.ball.vx == serve_velocity(seed as int)
            &&& r.0.left_score == m.left_score
            &&& r.0.right_score == m.right_score
        }),
{
}

/// The serve velocity follows Rust's truncating remainder: -300 for an even
/// seed, 0 for an odd positive one, -600 for an odd negative one.
pub proof fn law_serve_velocity(seed: int)
    ensures
        seed % 2 == 0 ==> serve_velocity(seed) == -300,
        seed % 2 != 0 && seed > 0 ==> serve_velocity(seed) == 0,
        seed % 2 != 0 && seed < 0 ==> serve_velocity(seed) == -600,
{
}

/// After any action, in particular any Time, each paddle's y lies in
/// `[paddle.y - area.y, area.y - paddle.y]`.
pub proof fn law_paddles_in_range(m: GameModel, a: Action)
    requires
        m.wf(),
    ensures
        paddle_min(m.cfg) <= step(m, a).0.left.y <= paddle_max(m.cfg),
        paddle_min(m.cfg) <= step(m, a).0.right.y <= paddle_max(m.cfg),
{
    lemma_step_wf(m, a);
}

/// A frame that carries the ball past the right goal line emits exactly one
/// Goal, for Left, and puts the ball back at the origin.
pub proof fn law_goal_left(m: GameModel)
    requires
        m.wf(),
        m.ball.x + m.ball.vx > goal_x(m.cfg),
    ensures
        tick(m).1 == seq![Event::Goal { player: Player::Left, score: bump(m.left_score) as u8 }]
            + frame_moves(tick(m).0),
        tick(m).0.ball.x == 0,
        tick(m).0.ball.y == 0,
        tick(m).0.left_score == bump(m.left_score),
        goals_for(tick(m).1, Player::Left) == 1,
        goals_for(tick(m).1, Player::Right) == 0,
{
    lemma_goal_count(m);
}

/// A frame that carries the ball past the left goal line emits exactly one
/// Goal, for Right, and puts the ball back at the origin.
pub proof fn law_goal_right(m: GameModel)
    requires
        m.wf(),
        m.ball.x + m.ball.vx < -goal_x(m.cfg),
    ensures
        tick(m).1 == seq![Event::Goal { player: Player::Right, score: bump(m.right_score) as u8 }]
            + frame_moves(tick(m).0),
        tick(m).0.ball.x == 0,
        tick(m).0.ball.y == 0,
        tick(m).0.right_score == bump(m.right_score),
        goals_for(tick(m).1, Player::Right) == 1,
        goals_for(tick(m).1, Player::Left) == 0,
{
    lemma_goal_count(m);
}

proof fn lemma_goal_count(m: GameModel)
    requires
        m.wf(),
    ensures
        ({
            let bx = m.ball.x + m.ball.vx;
            &&& goals_for(tick(m).1, Player::Left) == (if bx > goal_x(m.cfg) { 1int } else { 0 })
            &&& goals_for(tick(m).1, Player::Right) == (if bx < -goal_x(m.cfg) { 1int } else { 0 })
        }),
{
    let bx = m.ball.x + m.ball.vx;
    let m1 = tick(m).0;
    lemma_frame_moves_no_goal(m1, Player::Left);
    lemma_frame_moves_no_goal(m1, Player::Right);
    if bx > goal_x(m.cfg) || bx < -goal_x(m.cfg) {
        let g = seq![tick(m).1[0]];
        lemma_one_goal(tick(m).1[0], Player::Left);
        lemma_one_goal(tick(m).1[0], Player::Right);
        lemma_goals_for_concat(g, frame_moves(m1), Player::Left);
        lemma_goals_for_concat(g, frame_moves(m1), Player::Right);
        assert(g + frame_moves(m1) =~= tick(m).1);
    }
}

proof fn lemma_tick_scores(m: GameModel)
    requires
        m.wf(),
    ensures
        tick(m).0.left_score == capped(m.left_score + goals_for(tick(m).1, Player::Left)),
        tick(m).0.right_score == capped(m.right_score + goals_for(tick(m).1, Player::Right)),
{
    lemma_goal_count(m);
}

proof fn lemma_advance_scores(m: GameModel, n: nat)
    requires
        m.wf(),
        m.t + n * FRAME_TIME <= u64::MAX,
    ensures
        advance(m, n).0.left_score == capped(m.left_score + goals_for(advance(m, n).1, Player::Left)),
        advance(m, n).0.right_score == capped(m.right_score + goals_for(advance(m, n).1, Player::Right)),
    decreases n,
{
    if n > 0 {
        let m0 = GameModel { t: m.t + FRAME_TIME, ..m };
        let first = tick(m0);
        lemma_tick_wf(m0);
        lemma_tick_scores(m0);
        lemma_advance_scores(first.0, (n - 1) as nat);
        let rest = advance(first.0, (n - 1) as nat);
        lemma_goals_for_concat(first.1, rest.1, Player::Left);
        lemma_goals_for_concat(first.1, rest.1, Player::Right);
    }
}

/// Each score equals its old value plus the Goal events that the action
/// credited to that player (held at 255), so no action ever lowers a score.
pub proof fn law_scores_count_goals(m: GameModel, a: Action)
    requires
        m.wf(),
    ensures
        step(m, a).0.left_score == capped(m.left_score + goals_for(step(m, a).1, Player::Left)),
        step(m, a).0.right_score == capped(m.right_score + goals_for(step(m, a).1, Player::Right)),
        step(m, a).0.left_score >= m.left_score,
        step(m, a).0.right_score >= m.right_score,
{
    let r = step(m, a);
    if a is Time && m.state == State::Running {
        let n = frames_until(m, a->t as int);
        lemma_advance_wf(m, n);
        lemma_advance_scores(m, n);
    } else {
        lemma_no_goals(r.1, Player::Left);
        lemma_no_goals(r.1, Player::Right);
    }
}

/// The state after performing `actions` in order, starting from `m`.
pub open spec fn run_actions(m: GameModel, actions: Seq<Action>) -> GameModel
    decreases actions.len(),
{
    if actions.len() == 0 {
        m
    } else {
        run_actions(step(m, actions[0]).0, actions.drop_first())
    }
}

/// From a freshly constructed match, whatever actions follow, in particular
/// any mix of Move and Time, the invariant holds, both paddles stay within
/// their range and neither score goes down.
pub proof fn law_any_sequence(c: GameConfiguration, actions: Seq<Action>)
    requires
        c.wf(),
    ensures
        run_actions(initial_model(c), actions).wf(),
        paddle_min(c) <= run_actions(initial_model(c), actions).left.y <= paddle_max(c),
        paddle_min(c) <= run_actions(initial_model(c), actions).right.y <= paddle_max(c),
{
    lemma_run_actions(initial_model(c), actions);
}

/// Scores never go down over any sequence of actions.
pub proof fn law_scores_never_decrease(m: GameModel, actions: Seq<Action>)
    requires
        m.wf(),
    ensures
        run_actions(m, actions).left_score >= m.left_score,
        run_actions(m, actions).right_score >= m.right_score,
    decreases actions.len(),
{
    if actions.len() > 0 {
        law_scores_count_goals(m, actions[0]);
        lemma_step_wf(m, actions[0]);
        law_scores_never_decrease(step(m, actions[0]).0, actions.drop_first());
    }
}

proof fn lemma_run_actions(m: GameModel, actions: Seq<Action>)
    requires
        m.wf(),
    ensures
        run_actions(m, actions).wf(),
        run_actions(m, actions).cfg == m.cfg,
    decreases actions.len(),
{
    if actions.len() > 0 {
        lemma_step_wf(m, actions[0]);
        lemma_run_actions(step(m, actions[0]).0, actions.drop_first());
    }
}

/// A Time call that covers exactly one frame while Running emits what that
/// frame emits: a ball crossing a goal line there gives its Goal in this call.
pub proof fn law_time_one_frame(m: GameModel, t: u64)
    requires
        m.state == State::Running,
        m.t + FRAME_TIME <= t < m.t + 2 * FRAME_TIME,
    ensures
        step(m, Action::Time { t }).1 == tick(GameModel { t: m.t + FRAME_TIME, ..m }).1,
        step(m, Action::Time { t }).2 is Ok,
{
    assert(frames_until(m, t as int) == 1);
    reveal_with_fuel(advance, 2);
    assert(tick(GameModel { t: m.t + FRAME_TIME, ..m }).1 + Seq::<Event>::empty()
        =~= tick(GameModel { t: m.t + FRAME_TIME, ..m }).1);
}

/// A second Initialize emits the same three Create events as the first, and
/// the match is Ready after each.
pub proof fn law_initialize_twice(m: GameModel)
    ensures
        step(step(m, Action::Initialize).0, Action::Initialize).1 == step(m, Action::Initialize).1,
        step(step(m, Action::Initialize).0, Action::Initialize).0.state == State::Ready,
        step(step(m, Action::Initialize).0, Action::Initialize).2 is Ok,
{
}

/// Reset keeps each paddle's x and the ball's y-velocity.
pub proof fn law_reset_keeps(m: GameModel, seed: i64)
    requires
        m.state != State::Uninitialized,
    ensures
        step(m, Action::Reset { seed }).0.left.x == m.left.x,
        step(m, Action::Reset { seed }).0.right.x == m.right.x,
        step(m, Action::Reset { seed }).0.ball.vy == m.ball.vy,
{
}

/// Move sets the player's paddle velocity to +300, 0 or -300 and changes
/// nothing else that a frame would not.
pub proof fn law_move(m: GameModel, p: Player, d: Direction)
    requires
        m.state != State::Uninitialized,
    ensures
        step(m, Action::Move { player: p, direction: d }).2 is Ok,
        step(m, Action::Move { player: p, direction: d }).1 == Seq::<Event>::empty(),
        p == Player::Left ==> step(m, Action::Move { player: p, direction: d }).0.left.vy
            == paddle_velocity(d),
        p == Player::Right ==> step(m, Action::Move { player: p, direction: d }).0.right.vy
            == paddle_velocity(d),
        d == Direction::Up ==> paddle_velocity(d) == PADDLE_SPEED,
        d == Direction::Neutral ==> paddle_velocity(d) == 0,
        d == Direction::Down ==> paddle_velocity(d) == -PADDLE_SPEED,
{
}

/// In a frame each paddle moves by its velocity, clamped to its range.
pub proof fn law_tick_paddles(m: GameModel)
    requires
        m.wf(),
    ensures
        tick(m).0.left.y == clamp_spec(m.left.y + m.left.vy, paddle_min(m.cfg), paddle_max(m.cfg)),
        tick(m).0.right.y == clamp_spec(m.right.y + m.right.vy, paddle_min(m.cfg), paddle_max(m.cfg)),
        tick(m).0.left.x == m.left.x,
        tick(m).0.right.x == m.right.x,
        paddle_min(m.cfg) <= tick(m).0.left.y <= paddle_max(m.cfg),
        paddle_min(m.cfg) <= tick(m).0.right.y <= paddle_max(m.cfg),
{
}

/// The clock never runs backwards: after Time it is the larger of the old
/// clock and `t`.
pub proof fn law_time_clock(m: GameModel, t: u64)
    requires
        m.wf(),
        m.state != State::Uninitialized,
    ensures
        step(m, Action::Time { t }).0.t == next_clock(m, t as int),
        step(m, Action::Time { t }).0.t >= m.t,
{
}

/// A goal ends the rally: when the first frame of a Time call carries the
/// ball over a goal line, that call emits exactly that frame's events (one
/// Goal and three Moves), leaves the ball at the origin and the match Ready,
/// however much time the call covers.
pub proof fn law_goal_ends_time(m: GameModel, t: u64)
    requires
        m.wf(),
        m.state == State::Running,
        m.t + FRAME_TIME <= t,
        m.ball.x + m.ball.vx > goal_x(m.cfg) || m.ball.x + m.ball.vx < -goal_x(m.cfg),
    ensures
        step(m, Action::Time { t }).1 == tick(GameModel { t: m.t + FRAME_TIME, ..m }).1,
        step(m, Action::Time { t }).1.len() == 4,
        goals_for(step(m, Action::Time { t }).1, Player::Left) + goals_for(
            step(m, Action::Time { t }).1,
            Player::Right,
        ) == 1,
        step(m, Action::Time { t }).0.ball.x == 0,
        step(m, Action::Time { t }).0.ball.y == 0,
        step(m, Action::Time { t }).0.state == State::Ready,
{
    let m0 = GameModel { t: m.t + FRAME_TIME, ..m };
    let n = frames_until(m, t as int);
    assert(n >= 1);
    let first = tick(m0);
    assert(advance(first.0, (n - 1) as nat) == (first.0, Seq::<Event>::empty()));
    assert(first.1 + Seq::<Event>::empty() =~= first.1);
    lemma_goal_count(m0);
}

} // verus!
