use pong::game::{
    clamp, reflect, Action, Direction, Entity, Error, Event, Game, GameConfiguration, Player,
    State, Vec2,
};

fn standard_config() -> GameConfiguration {
    GameConfiguration {
        area: Vec2 { x: 500000, y: 500000 },
        paddle: Vec2 { x: 5000, y: 31250 },
        ball_size: 5000,
    }
}

fn run(game: &mut Game, action: Action) -> (Result<(), Error>, Vec<Event>) {
    let mut events = Vec::new();
    let r = game.process(action, &mut events);
    (r, events)
}

fn started_game() -> Game {
    let mut game = Game::new(standard_config());
    run(&mut game, Action::Initialize).0.unwrap();
    run(&mut game, Action::Start).0.unwrap();
    game
}

#[test]
fn actions_before_initialize_fail() {
    let actions = vec![
        Action::Start,
        Action::Reset { seed: 3 },
        Action::Time { t: 5000 },
        Action::Move { player: Player::Left, direction: Direction::Up },
    ];
    for a in actions {
        let mut game = Game::new(standard_config());
        let (r, events) = run(&mut game, a);
        assert_eq!(r, Err(Error::NotInitialized));
        assert!(events.is_empty());
        assert_eq!(game.state(), State::Uninitialized);
    }
}

#[test]
fn initialize_creates_three_entities() {
    let mut game = Game::new(standard_config());
    let (r, events) = run(&mut game, Action::Initialize);
    assert_eq!(r, Ok(()));
    assert_eq!(
        events,
        vec![
            Event::Create { id: 0, entity: Entity::LeftPaddle, x: -495000, y: 0 },
            Event::Create { id: 1, entity: Entity::RightPaddle, x: 495000, y: 0 },
            Event::Create { id: 2, entity: Entity::Ball, x: 0, y: 0 },
        ]
    );
    assert_eq!(game.state(), State::Ready);
}

#[test]
fn initialize_again_emits_the_same_shape() {
    let mut game = started_game();
    run(&mut game, Action::Move { player: Player::Left, direction: Direction::Up }).0.unwrap();
    run(&mut game, Action::Time { t: 5000 }).0.unwrap();
    let (r, events) = run(&mut game, Action::Initialize);
    assert_eq!(r, Ok(()));
    assert_eq!(events.len(), 3);
    assert_eq!(events[0], Event::Create { id: 0, entity: Entity::LeftPaddle, x: -495000, y: 0 });
    assert_eq!(events[2], Event::Create { id: 2, entity: Entity::Ball, x: 0, y: 0 });
    assert_eq!(game.state(), State::Ready);
}

#[test]
fn start_emits_round_start_each_time() {
    let mut game = Game::new(standard_config());
    run(&mut game, Action::Initialize).0.unwrap();
    for _ in 0..2 {
        let (r, events) = run(&mut game, Action::Start);
        assert_eq!(r, Ok(()));
        assert_eq!(events, vec![Event::RoundStart]);
        assert_eq!(game.state(), State::Running);
    }
}

#[test]
fn first_tick_moves_ball_by_preset_velocity() {
    let mut game = Game::new(standard_config());
    let (_, created) = run(&mut game, Action::Initialize);
    assert_eq!(created[2], Event::Create { id: 2, entity: Entity::Ball, x: 0, y: 0 });
    run(&mut game, Action::Start).0.unwrap();
    let (r, events) = run(&mut game, Action::Time { t: 1000 });
    assert_eq!(r, Ok(()));
    assert_eq!(
        events,
        vec![
            Event::Move { id: 0, x: -495000, y: 0 },
            Event::Move { id: 1, x: 495000, y: 0 },
            Event::Move { id: 2, x: 240, y: 240 },
        ]
    );
}

#[test]
fn time_below_one_frame_does_nothing() {
    let mut game = started_game();
    let (r, events) = run(&mut game, Action::Time { t: 999 });
    assert_eq!(r, Ok(()));
    assert!(events.is_empty());
    let (_, events) = run(&mut game, Action::Time { t: 1998 });
    assert!(events.is_empty());
    let (_, events) = run(&mut game, Action::Time { t: 2998 });
    assert_eq!(events.len(), 3);
}

#[test]
fn time_runs_one_frame_per_thousand_units() {
    let mut game = started_game();
    let (_, events) = run(&mut game, Action::Time { t: 3500 });
    assert_eq!(events.len(), 9);
    assert_eq!(events[8], Event::Move { id: 2, x: 720, y: 720 });
}

#[test]
fn time_while_ready_only_sets_the_clock() {
    let mut game = Game::new(standard_config());
    run(&mut game, Action::Initialize).0.unwrap();
    let (r, events) = run(&mut game, Action::Time { t: 10000 });
    assert_eq!(r, Ok(()));
    assert!(events.is_empty());
    run(&mut game, Action::Start).0.unwrap();
    let (_, events) = run(&mut game, Action::Time { t: 11000 });
    assert_eq!(events[2], Event::Move { id: 2, x: 240, y: 240 });
}

#[test]
fn move_up_raises_left_paddle_by_300() {
    let mut game = started_game();
    let (r, events) =
        run(&mut game, Action::Move { player: Player::Left, direction: Direction::Up });
    assert_eq!(r, Ok(()));
    assert!(events.is_empty());
    let (_, events) = run(&mut game, Action::Time { t: 1000 });
    assert_eq!(events[0], Event::Move { id: 0, x: -495000, y: 300 });
    assert_eq!(events[1], Event::Move { id: 1, x: 495000, y: 0 });
}

#[test]
fn move_down_and_neutral() {
    let mut game = started_game();
    run(&mut game, Action::Move { player: Player::Right, direction: Direction::Down }).0.unwrap();
    let (_, events) = run(&mut game, Action::Time { t: 2000 });
    assert_eq!(events[4], Event::Move { id: 1, x: 495000, y: -600 });
    run(&mut game, Action::Move { player: Player::Right, direction: Direction::Neutral })
        .0
        .unwrap();
    let (_, events) = run(&mut game, Action::Time { t: 3000 });
    assert_eq!(events[1], Event::Move { id: 1, x: 495000, y: -600 });
}

#[test]
fn paddle_is_clamped_at_the_top() {
    let cfg = GameConfiguration {
        area: Vec2 { x: 500000, y: 1000 },
        paddle: Vec2 { x: 5000, y: 500 },
        ball_size: 50,
    };
    let mut game = Game::new(cfg);
    run(&mut game, Action::Initialize).0.unwrap();
    run(&mut game, Action::Start).0.unwrap();
    run(&mut game, Action::Move { player: Player::Left, direction: Direction::Up }).0.unwrap();
    let (_, events) = run(&mut game, Action::Time { t: 2000 });
    assert_eq!(events[3], Event::Move { id: 0, x: -495000, y: 500 });
}

#[test]
fn reset_with_even_seed_serves_left() {
    let mut game = started_game();
    run(&mut game, Action::Time { t: 4000 }).0.unwrap();
    let (r, events) = run(&mut game, Action::Reset { seed: 0 });
    assert_eq!(r, Ok(()));
    assert_eq!(
        events,
        vec![
            Event::Move { id: 0, x: -495000, y: 0 },
            Event::Move { id: 1, x: 495000, y: 0 },
            Event::Move { id: 2, x: 0, y: 0 },
            Event::Reset,
        ]
    );
    assert_eq!(game.state(), State::Ready);
    run(&mut game, Action::Start).0.unwrap();
    let (_, events) = run(&mut game, Action::Time { t: 5000 });
    assert_eq!(events[2], Event::Move { id: 2, x: -300, y: 240 });
}

#[test]
fn reset_with_odd_seed_stops_ball_along_x() {
    let mut game = started_game();
    run(&mut game, Action::Reset { seed: 1 }).0.unwrap();
    run(&mut game, Action::Start).0.unwrap();
    let (_, events) = run(&mut game, Action::Time { t: 1000 });
    assert_eq!(events[2], Event::Move { id: 2, x: 0, y: 240 });
}

#[test]
fn reset_with_negative_odd_seed_doubles_speed() {
    let mut game = started_game();
    run(&mut game, Action::Reset { seed: -1 }).0.unwrap();
    run(&mut game, Action::Start).0.unwrap();
    let (_, events) = run(&mut game, Action::Time { t: 1000 });
    assert_eq!(events[2], Event::Move { id: 2, x: -600, y: 240 });
}

#[test]
fn reset_keeps_scores() {
    let mut game = small_field_game();
    run(&mut game, Action::Time { t: 3000 }).0.unwrap();
    assert_eq!(game.score(Player::Left), 1);
    run(&mut game, Action::Reset { seed: 4 }).0.unwrap();
    assert_eq!(game.score(Player::Left), 1);
    assert_eq!(game.score(Player::Right), 0);
}

fn small_field_game() -> Game {
    let cfg = GameConfiguration {
        area: Vec2 { x: 500, y: 100000 },
        paddle: Vec2 { x: 10, y: 10 },
        ball_size: 10,
    };
    let mut game = Game::new(cfg);
    run(&mut game, Action::Initialize).0.unwrap();
    run(&mut game, Action::Start).0.unwrap();
    game
}

#[test]
fn crossing_the_right_line_scores_for_left() {
    let mut game = small_field_game();
    let (r, events) = run(&mut game, Action::Time { t: 3000 });
    assert_eq!(r, Ok(()));
    let goals: Vec<&Event> = events.iter().filter(|e| matches!(e, Event::Goal { .. })).collect();
    assert_eq!(goals, vec![&Event::Goal { player: Player::Left, score: 1 }]);
    assert_eq!(events[6], Event::Goal { player: Player::Left, score: 1 });
    assert_eq!(events[9], Event::Move { id: 2, x: 0, y: 0 });
    assert_eq!(game.state(), State::Ready);
    assert_eq!(game.score(Player::Left), 1);
}

#[test]
fn crossing_the_left_line_scores_for_right() {
    let mut game = small_field_game();
    run(&mut game, Action::Reset { seed: 0 }).0.unwrap();
    run(&mut game, Action::Start).0.unwrap();
    let (_, events) = run(&mut game, Action::Time { t: 2000 });
    assert_eq!(events[3], Event::Goal { player: Player::Right, score: 1 });
    assert_eq!(game.score(Player::Right), 1);
    assert_eq!(game.score(Player::Left), 0);
}

#[test]
fn ball_bounces_off_the_top_wall() {
    let cfg = GameConfiguration {
        area: Vec2 { x: 500000, y: 300 },
        paddle: Vec2 { x: 5000, y: 100 },
        ball_size: 10,
    };
    let mut game = Game::new(cfg);
    run(&mut game, Action::Initialize).0.unwrap();
    run(&mut game, Action::Start).0.unwrap();
    let (_, events) = run(&mut game, Action::Time { t: 3000 });
    assert_eq!(events[2], Event::Move { id: 2, x: 240, y: 240 });
    assert_eq!(events[5], Event::Move { id: 2, x: 480, y: 120 });
    assert_eq!(events[8], Event::Move { id: 2, x: 720, y: -120 });
}

#[test]
fn ball_bounces_off_a_paddle() {
    let cfg = GameConfiguration {
        area: Vec2 { x: 1000, y: 100000 },
        paddle: Vec2 { x: 100, y: 100000 },
        ball_size: 10,
    };
    let mut game = Game::new(cfg);
    run(&mut game, Action::Initialize).0.unwrap();
    run(&mut game, Action::Start).0.unwrap();
    let (_, events) = run(&mut game, Action::Time { t: 5000 });
    // 240, 480, 720 (reaches the right paddle at 900 within 110), then back.
    assert_eq!(events[8], Event::Move { id: 2, x: 720, y: 720 });
    assert_eq!(events[11], Event::Move { id: 2, x: 960, y: 960 });
    assert_eq!(events[14], Event::Move { id: 2, x: 720, y: 1200 });
}

#[test]
fn clamp_limits_to_range() {
    assert_eq!(clamp(5, 0, 10), 5);
    assert_eq!(clamp(-3, 0, 10), 0);
    assert_eq!(clamp(12, 0, 10), 10);
    assert_eq!(clamp(10, 0, 10), 10);
}

#[test]
fn reflect_mirrors_at_bounds() {
    assert_eq!(reflect(5, 0, 10), 5);
    assert_eq!(reflect(-3, 0, 10), 3);
    assert_eq!(reflect(12, 0, 10), 8);
    assert_eq!(reflect(10, 0, 10), 10);
}

#[test]
fn each_goal_adds_one_point() {
    let mut game = small_field_game();
    let (_, events) = run(&mut game, Action::Time { t: 6000 });
    let goals: Vec<Event> =
        events.into_iter().filter(|e| matches!(e, Event::Goal { .. })).collect();
    assert_eq!(goals, vec![Event::Goal { player: Player::Left, score: 1 }]);
    assert_eq!(game.state(), State::Ready);
    run(&mut game, Action::Start).0.unwrap();
    let (_, events) = run(&mut game, Action::Time { t: 12000 });
    let goals: Vec<Event> =
        events.into_iter().filter(|e| matches!(e, Event::Goal { .. })).collect();
    assert_eq!(goals, vec![Event::Goal { player: Player::Left, score: 2 }]);
    assert_eq!(game.score(Player::Left), 2);
    assert_eq!(game.score(Player::Right), 0);
}

#[test]
fn goal_stops_the_rest_of_a_time_call() {
    let cfg = GameConfiguration {
        area: Vec2 { x: 100, y: 100000 },
        paddle: Vec2 { x: 10, y: 10 },
        ball_size: 0,
    };
    let mut game = Game::new(cfg);
    run(&mut game, Action::Initialize).0.unwrap();
    run(&mut game, Action::Start).0.unwrap();
    let (r, events) = run(&mut game, Action::Time { t: 2000 });
    assert_eq!(r, Ok(()));
    assert_eq!(
        events,
        vec![
            Event::Goal { player: Player::Left, score: 1 },
            Event::Move { id: 0, x: -90, y: 0 },
            Event::Move { id: 1, x: 90, y: 0 },
            Event::Move { id: 2, x: 0, y: 0 },
        ]
    );
    assert_eq!(game.state(), State::Ready);
}

#[test]
fn time_never_runs_the_clock_backwards() {
    let mut game = started_game();
    let (_, events) = run(&mut game, Action::Time { t: 5000 });
    assert_eq!(events[14], Event::Move { id: 2, x: 1200, y: 1200 });
    let (r, events) = run(&mut game, Action::Time { t: 3000 });
    assert_eq!(r, Ok(()));
    assert!(events.is_empty());
    let (_, events) = run(&mut game, Action::Time { t: 5999 });
    assert!(events.is_empty());
    let (_, events) = run(&mut game, Action::Time { t: 6999 });
    assert_eq!(events, vec![
        Event::Move { id: 0, x: -495000, y: 0 },
        Event::Move { id: 1, x: 495000, y: 0 },
        Event::Move { id: 2, x: 1440, y: 1440 },
    ]);
}

#[test]
fn configuration_validity() {
    assert!(standard_config().is_valid());
    let negative = GameConfiguration {
        area: Vec2 { x: 1000, y: 1000 },
        paddle: Vec2 { x: 10, y: 10 },
        ball_size: -1,
    };
    assert!(!negative.is_valid());
    let paddle_too_tall = GameConfiguration {
        area: Vec2 { x: 1000, y: 1000 },
        paddle: Vec2 { x: 10, y: 1001 },
        ball_size: 10,
    };
    assert!(!paddle_too_tall.is_valid());
    let too_flat = GameConfiguration {
        area: Vec2 { x: 1000, y: 119 },
        paddle: Vec2 { x: 10, y: 10 },
        ball_size: 10,
    };
    assert!(!too_flat.is_valid());
}
