use breakout::collider::{intersects, Normal, Rect, Vec2};
use breakout::motion::{
    bounce_ball_on_edges, bounce_ball_on_obstacles, integrate, keep_ball_at_paddle_center, keep_ball_synced_with_settings, keep_destroying_balls,
    move_balls, Ball, Obstacle, ObstacleKind, Playfield,
};

fn v(x: i64, y: i64) -> Vec2 {
    Vec2 { x, y }
}

fn rect(cx: i64, cy: i64, hx: i64, hy: i64) -> Rect {
    Rect { center: v(cx, cy), half: v(hx, hy) }
}

fn ball(px: i64, py: i64, vx: i64, vy: i64) -> Ball {
    Ball { position: v(px, py), velocity: v(vx, vy) }
}

fn field() -> Playfield {
    Playfield { left: 0, right: 1_000_000, bottom: 0, top: 1_000_000 }
}

fn speed_sq(b: &Ball) -> i128 {
    let x = b.velocity.x as i128;
    let y = b.velocity.y as i128;
    x * x + y * y
}

#[test]
fn paddle_scenario_bounces_straight_up() {
    let mut balls = vec![ball(100_000, 100_000, 0, -500)];
    let mut obstacles = vec![Obstacle { id: 1, kind: ObstacleKind::Paddle, rect: rect(100_000, 90_000, 40_000, 10_000) }];
    let destroyed = move_balls(&mut balls, &mut obstacles, 11_000, false, field(), 16);
    assert!(destroyed.is_empty());
    assert_eq!(obstacles.len(), 1);
    assert_eq!(balls[0].velocity, v(0, 500));
    assert_eq!(balls[0].position, v(100_000, 111_000));
    assert!(balls[0].position.y - 11_000 >= 100_000);
}

#[test]
fn no_contact_when_far() {
    assert_eq!(intersects(v(0, 0), 10, rect(100, 0, 10, 10)), None);
}

#[test]
fn contact_at_exact_radius() {
    assert_eq!(intersects(v(0, 0), 90, rect(100, 0, 10, 10)), Some(Normal { x: -1, y: 0 }));
    assert_eq!(intersects(v(0, 0), 89, rect(100, 0, 10, 10)), None);
}

#[test]
fn contact_from_above_has_upward_normal() {
    assert_eq!(intersects(v(5, 30), 20, rect(0, 0, 50, 15)), Some(Normal { x: 0, y: 1 }));
}

#[test]
fn corner_contact_has_both_components() {
    // nearest point (10, 10), offset (3, 4): distance 5
    assert_eq!(intersects(v(13, 14), 5, rect(0, 0, 10, 10)), Some(Normal { x: 1, y: 1 }));
    assert_eq!(intersects(v(13, 14), 4, rect(0, 0, 10, 10)), None);
}

#[test]
fn center_inside_picks_relatively_nearest_edge() {
    // relative offsets: x 8/10, y 2/10
    assert_eq!(intersects(v(-8, 2), 1, rect(0, 0, 10, 10)), Some(Normal { x: -1, y: 0 }));
    // x 1/40, y 5/10
    assert_eq!(intersects(v(1, -5), 1, rect(0, 0, 40, 10)), Some(Normal { x: 0, y: -1 }));
}

#[test]
fn degenerate_shapes_never_touch() {
    assert_eq!(intersects(v(0, 0), 0, rect(0, 0, 10, 10)), None);
    assert_eq!(intersects(v(0, 0), -5, rect(0, 0, 10, 10)), None);
    assert_eq!(intersects(v(0, 0), 5, rect(0, 0, 0, 10)), None);
    assert_eq!(intersects(v(0, 0), 5, rect(0, 0, 10, 0)), None);
}

#[test]
fn extreme_coordinates_do_not_overflow() {
    assert_eq!(intersects(v(0, i64::MAX), 10, rect(0, i64::MAX - 5, i64::MAX, 1)), Some(Normal { x: 0, y: 1 }));
    assert_eq!(intersects(v(i64::MIN, i64::MAX), i64::MAX, rect(i64::MAX, i64::MIN, i64::MAX, i64::MAX)), None);
    assert_eq!(intersects(v(i64::MIN, i64::MIN), 1, rect(i64::MAX, i64::MAX, 1, 1)), None);
}

#[test]
fn integration_moves_by_velocity_times_dt() {
    let mut b = ball(0, 0, 3, -4);
    integrate(&mut b, 10);
    assert_eq!(b, ball(30, -40, 3, -4));
}

#[test]
fn corner_bounce_keeps_speed() {
    let mut b = ball(13, 14, -30, -40);
    let before = speed_sq(&b);
    let obstacles = vec![Obstacle { id: 7, kind: ObstacleKind::Paddle, rect: rect(0, 0, 10, 10) }];
    assert_eq!(bounce_ball_on_obstacles(&mut b, 5, &obstacles, false), Some(0));
    assert_eq!(b.velocity, v(40, 30));
    assert_eq!(b.position, v(15, 15));
    assert_eq!(speed_sq(&b), before);
}

#[test]
fn corner_bounce_mirrors_across_composed_normal() {
    let obstacles = vec![Obstacle { id: 7, kind: ObstacleKind::Brick, rect: rect(0, 0, 10, 10) }];
    let mut b = ball(13, 14, -3000, -5000);
    assert_eq!(bounce_ball_on_obstacles(&mut b, 5, &obstacles, false), Some(0));
    assert_eq!(b.velocity, v(5000, 3000));
    // upper left corner: normal (-1, 1)
    let mut b = ball(-13, 14, 3000, -5000);
    assert_eq!(bounce_ball_on_obstacles(&mut b, 5, &obstacles, false), Some(0));
    assert_eq!(b.velocity, v(-5000, 3000));
    assert_eq!(b.position, v(-15, 15));
    // moving into the corner on one axis only: still mirrored
    let mut b = ball(13, 14, 1, -5);
    assert_eq!(bounce_ball_on_obstacles(&mut b, 5, &obstacles, false), Some(0));
    assert_eq!(b.velocity, v(5, -1));
    // moving away from the corner: kept
    let mut b = ball(13, 14, 5, -1);
    assert_eq!(bounce_ball_on_obstacles(&mut b, 5, &obstacles, false), Some(0));
    assert_eq!(b.velocity, v(5, -1));
}

#[test]
fn ball_follows_paddle_before_play() {
    let mut balls = vec![ball(5, 6, 300, 400), ball(-7, 8, 0, 500)];
    keep_ball_at_paddle_center(&mut balls, rect(100_000, 20_000, 40_000, 10_000), 11_000);
    assert_eq!(balls, vec![ball(100_000, 41_000, 300, 400), ball(100_000, 41_000, 0, 500)]);
}

#[test]
fn ball_moving_away_keeps_direction() {
    let mut b = ball(5, 30, 7, 9);
    let obstacles = vec![Obstacle { id: 7, kind: ObstacleKind::Paddle, rect: rect(0, 0, 50, 15) }];
    assert_eq!(bounce_ball_on_obstacles(&mut b, 20, &obstacles, false), Some(0));
    assert_eq!(b.velocity, v(7, 9));
    assert_eq!(b.position, v(5, 35));
}

#[test]
fn first_obstacle_in_order_wins() {
    let mut b = ball(0, 0, 0, -10);
    let obstacles = vec![
        Obstacle { id: 1, kind: ObstacleKind::Brick, rect: rect(500, 500, 10, 10) },
        Obstacle { id: 2, kind: ObstacleKind::Brick, rect: rect(0, -10, 10, 5) },
        Obstacle { id: 3, kind: ObstacleKind::Paddle, rect: rect(0, -10, 10, 5) },
    ];
    assert_eq!(bounce_ball_on_obstacles(&mut b, 6, &obstacles, false), Some(1));
    assert_eq!(b.velocity, v(0, 10));
}

#[test]
fn ghost_bricks_are_passed_through() {
    let mut b = ball(0, 0, 0, -10);
    let obstacles = vec![
        Obstacle { id: 2, kind: ObstacleKind::Brick, rect: rect(0, -10, 10, 5) },
        Obstacle { id: 3, kind: ObstacleKind::Paddle, rect: rect(0, -10, 10, 5) },
    ];
    assert_eq!(bounce_ball_on_obstacles(&mut b, 6, &obstacles, true), Some(1));
    let mut c = ball(0, 0, 0, -10);
    assert_eq!(bounce_ball_on_obstacles(&mut c, 6, &obstacles[..1].to_vec(), true), None);
    assert_eq!(c, ball(0, 0, 0, -10));
}

#[test]
fn brick_hit_is_destroyed_once() {
    let mut balls = vec![ball(0, 100, 0, 100), ball(0, 100, 0, 100)];
    let mut obstacles = vec![
        Obstacle { id: 9, kind: ObstacleKind::Brick, rect: rect(0, 1_200, 50, 10) },
        Obstacle { id: 4, kind: ObstacleKind::Paddle, rect: rect(0, -500, 50, 10) },
    ];
    let destroyed = move_balls(&mut balls, &mut obstacles, 100, false, field(), 10);
    assert_eq!(destroyed, vec![9]);
    assert_eq!(obstacles.len(), 1);
    assert_eq!(obstacles[0].id, 4);
    assert_eq!(balls[0].velocity, v(0, -100));
    assert_eq!(balls[0].position, v(0, 1_090));
    // the second ball finds the brick gone
    assert_eq!(balls[1], ball(0, 1_100, 0, 100));
}

#[test]
fn slow_ball_does_not_tunnel_through_paddle() {
    // 500 px/s over 16 ms moves 8 px, less than half the paddle's thickness plus the ball's radius
    let mut balls = vec![ball(0, 31_000, 0, -500)];
    let mut obstacles = vec![Obstacle { id: 1, kind: ObstacleKind::Paddle, rect: rect(0, 10_000, 40_000, 10_000) }];
    move_balls(&mut balls, &mut obstacles, 11_000, false, field_around(), 16);
    assert_eq!(balls[0].velocity, v(0, 500));
}

#[test]
fn fast_ball_can_pass_through_between_ticks() {
    // contacts are checked once per tick: a long tick carries the ball past the paddle
    let mut balls = vec![ball(0, 31_000, 0, -500)];
    let mut obstacles = vec![Obstacle { id: 1, kind: ObstacleKind::Paddle, rect: rect(0, 10_000, 40_000, 10_000) }];
    move_balls(&mut balls, &mut obstacles, 11_000, false, field_around(), 200);
    assert_eq!(balls[0].velocity, v(0, -500));
    assert_eq!(balls[0].position, v(0, -69_000));
}

fn field_around() -> Playfield {
    Playfield { left: -1_000_000, right: 1_000_000, bottom: -1_000_000, top: 1_000_000 }
}

#[test]
fn edges_clamp_and_reflect() {
    let f = Playfield { left: 0, right: 100, bottom: 0, top: 200 };
    let mut b = ball(-5, 50, -3, 4);
    assert!(!bounce_ball_on_edges(&mut b, f));
    assert_eq!(b, ball(0, 50, 3, 4));
    let mut b = ball(120, 250, 3, 4);
    assert!(!bounce_ball_on_edges(&mut b, f));
    assert_eq!(b, ball(100, 200, -3, -4));
    let mut b = ball(50, 50, 3, 4);
    assert!(!bounce_ball_on_edges(&mut b, f));
    assert_eq!(b, ball(50, 50, 3, 4));
}

#[test]
fn bottom_edge_does_not_reflect() {
    let f = Playfield { left: 0, right: 100, bottom: 0, top: 200 };
    let mut b = ball(50, -1, 3, -4);
    assert!(bounce_ball_on_edges(&mut b, f));
    assert_eq!(b, ball(50, -1, 3, -4));
}

#[test]
fn last_ball_event_fires_once() {
    let f = Playfield { left: 0, right: 100, bottom: 0, top: 200 };
    let mut balls = vec![ball(10, -1, 0, -5), ball(20, 50, 0, -5), ball(30, -2, 0, -5)];
    assert!(!keep_destroying_balls(&mut balls, f));
    assert_eq!(balls, vec![ball(20, 50, 0, -5)]);
    balls[0].position.y = -3;
    assert!(keep_destroying_balls(&mut balls, f));
    assert!(balls.is_empty());
    assert!(!keep_destroying_balls(&mut balls, f));
}

#[test]
fn all_balls_lost_in_one_tick_fires_once() {
    let f = Playfield { left: 0, right: 100, bottom: 0, top: 200 };
    let mut balls = vec![ball(10, -1, 0, -5), ball(30, -2, 0, -5)];
    assert!(keep_destroying_balls(&mut balls, f));
    assert!(balls.is_empty());
}

#[test]
fn speed_sync_scales_velocity() {
    let mut balls = vec![ball(1, 2, 0, -500), ball(3, 4, -3, 7)];
    keep_ball_synced_with_settings(&mut balls, 500, 250);
    assert_eq!(balls[0], ball(1, 2, 0, -250));
    assert_eq!(balls[1], ball(3, 4, -1, 3));
    let mut balls = vec![ball(3, 4, -3, 7)];
    keep_ball_synced_with_settings(&mut balls, 10, 4);
    assert_eq!(balls[0], ball(3, 4, -1, 2));
}

#[test]
fn speed_is_kept_over_many_ticks() {
    let f = Playfield { left: 0, right: 400_000, bottom: -1_000_000, top: 300_000 };
    let mut balls = vec![ball(50_000, 60_000, 300, -400), ball(200_000, 100_000, -120, 350)];
    let before: Vec<i128> = balls.iter().map(speed_sq).collect();
    let mut obstacles = vec![
        Obstacle { id: 1, kind: ObstacleKind::Paddle, rect: rect(200_000, 10_000, 400_000, 10_000) },
        Obstacle { id: 2, kind: ObstacleKind::Brick, rect: rect(120_000, 200_000, 30_000, 10_000) },
        Obstacle { id: 3, kind: ObstacleKind::Brick, rect: rect(300_000, 220_000, 30_000, 10_000) },
    ];
    for _ in 0..2_000 {
        move_balls(&mut balls, &mut obstacles, 11_000, false, f, 16);
        let after: Vec<i128> = balls.iter().map(speed_sq).collect();
        assert_eq!(after, before);
        for b in &balls {
            assert!(b.position.x >= f.left && b.position.x <= f.right && b.position.y <= f.top);
        }
    }
}
