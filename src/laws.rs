//! Properties that relate the library's functions, proved over the spec
//! functions their contracts use.
use vstd::prelude::*;
use crate::collider::{abs, contact_normal, is_unit_normal, touches, Normal, Rect, Vec2};
use crate::mode::{session_after, transition_of, AppState, InGameState, ModeInput, PendingEvents, Session, Transition};
use crate::motion::{
    after_obstacles, bounced, dot, edge_bounced, lemma_unit_product, first_hit, is_lost, kept, last_ball_lost, reflect_axis, reflected,
    stepped, tick, integrated, velocity_ok, Ball, Obstacle, Playfield,
};
use crate::settings::{clamp_points, input_delta, settings_after, Settings, SettingsInput, MAX_POINTS, MIN_POINTS};

verus! {

/// Square of a velocity's magnitude.
pub open spec fn speed_sq(v: Vec2) -> int {
    v.x * v.x + v.y * v.y
}

proof fn lemma_reflect_axis(v: int, n: int)
    ensures
        abs(reflect_axis(v, n)) == abs(v),
        reflect_axis(v, n) * reflect_axis(v, n) == v * v,
{
    let r = reflect_axis(v, n);
    assert(r == v || r == -v);
    assert(r * r == v * v) by (nonlinear_arith)
        requires
            r == v || r == -v,
    ;
}

/// Every contact normal has components in -1..=1, not both 0.
pub proof fn contact_normal_is_unit(c: Vec2, rect: Rect)
    ensures
        is_unit_normal(contact_normal(c, rect)),
{
}

/// Mirroring a velocity across a contact normal keeps its magnitude.
pub proof fn reflection_keeps_speed(v: Vec2, n: Normal)
    requires
        velocity_ok(v),
        is_unit_normal(n),
    ensures
        speed_sq(reflected(v, n)) == speed_sq(v),
        velocity_ok(reflected(v, n)),
{
    let r = reflected(v, n);
    let k = dot(v, n);
    lemma_unit_product(n.x as int, v.x as int);
    lemma_unit_product(n.y as int, v.y as int);
    lemma_unit_product(n.x as int, k);
    lemma_unit_product(n.y as int, k);
    let (x, y) = (v.x as int, v.y as int);
    assert((r.x == x || r.x == -x) && (r.y == y || r.y == -y) || (r.x == y || r.x == -y) && (r.y == x || r.y == -x));
    assert(speed_sq(r) == speed_sq(v)) by (nonlinear_arith)
        requires
            (r.x == x || r.x == -x) && (r.y == y || r.y == -y) || (r.x == y || r.x == -y) && (r.y == x || r.y == -x),
            speed_sq(r) == r.x * r.x + r.y * r.y,
            speed_sq(v) == x * x + y * y,
    ;
}

/// The edges keep a ball's speed, and leave its center within the left,
/// right and top bounds of a well-formed playfield.
pub proof fn edge_bounce_contains(b: Ball, field: Playfield)
    requires
        velocity_ok(b.velocity),
        field.wf(),
    ensures
        field.left <= edge_bounced(b, field).position.x <= field.right,
        edge_bounced(b, field).position.y <= field.top,
        speed_sq(edge_bounced(b, field).velocity) == speed_sq(b.velocity),
        velocity_ok(edge_bounced(b, field).velocity),
{
    let e = edge_bounced(b, field);
    lemma_reflect_axis(b.velocity.x as int, 1);
    lemma_reflect_axis(b.velocity.x as int, -1);
    lemma_reflect_axis(b.velocity.y as int, -1);
    assert(e.velocity.x * e.velocity.x == b.velocity.x * b.velocity.x);
    assert(e.velocity.y * e.velocity.y == b.velocity.y * b.velocity.y);
}

/// One tick of one ball keeps its speed, whatever it bounces on.
pub proof fn step_keeps_speed(b: Ball, radius: int, obs: Seq<Obstacle>, bricks_ghost: bool, field: Playfield, dt: int)
    requires
        velocity_ok(b.velocity),
    ensures
        speed_sq(stepped(b, radius, obs, bricks_ghost, field, dt).velocity) == speed_sq(b.velocity),
        velocity_ok(stepped(b, radius, obs, bricks_ghost, field, dt).velocity),
{
    let m = integrated(b, dt);
    let a = after_obstacles(m, radius, obs, bricks_ghost);
    match first_hit(obs, m.position, radius, bricks_ghost) {
        Some(i) => {
            contact_normal_is_unit(m.position, obs[i].rect);
            reflection_keeps_speed(m.velocity, contact_normal(m.position, obs[i].rect));
        },
        None => {},
    }
    lemma_reflect_axis(a.velocity.x as int, 1);
    lemma_reflect_axis(a.velocity.x as int, -1);
    lemma_reflect_axis(a.velocity.y as int, -1);
    let e = edge_bounced(a, field);
    assert(e.velocity.x * e.velocity.x == a.velocity.x * a.velocity.x);
    assert(e.velocity.y * e.velocity.y == a.velocity.y * a.velocity.y);
}

/// A tick keeps the number of balls and the speed of every ball.
pub proof fn tick_keeps_speed(
    balls: Seq<Ball>,
    obs: Seq<Obstacle>,
    radius: int,
    bricks_ghost: bool,
    field: Playfield,
    dt: int,
)
    requires
        forall|k: int| 0 <= k < balls.len() ==> velocity_ok(#[trigger] balls[k].velocity),
    ensures
        tick(balls, obs, radius, bricks_ghost, field, dt).0.len() == balls.len(),
        forall|k: int|
            0 <= k < balls.len() ==> speed_sq(#[trigger] tick(balls, obs, radius, bricks_ghost, field, dt).0[k].velocity)
                == speed_sq(balls[k].velocity),
    decreases balls.len(),
{
    if balls.len() > 0 {
        let prev = balls.drop_last();
        tick_keeps_speed(prev, obs, radius, bricks_ghost, field, dt);
        let os = tick(prev, obs, radius, bricks_ghost, field, dt).1;
        step_keeps_speed(balls.last(), radius, os, bricks_ghost, field, dt);
        let t = tick(balls, obs, radius, bricks_ghost, field, dt).0;
        assert forall|k: int| 0 <= k < balls.len() implies speed_sq(#[trigger] t[k].velocity)
            == speed_sq(balls[k].velocity) by {
            if k < balls.len() - 1 {
                assert(balls[k] == prev[k]);
            }
        }
    }
}

/// A ball moving straight down onto the top edge of a rectangle, with its
/// center above the rectangle and within its width, leaves straight up at
/// the same speed, resting on the top edge.
pub proof fn straight_down_onto_top_bounces_up(b: Ball, radius: int, rect: Rect)
    requires
        b.velocity.x == 0,
        i64::MIN < b.velocity.y < 0,
        b.position.y > rect.center.y + rect.half.y,
        abs(b.position.x - rect.center.x) <= rect.half.x,
        touches(b.position, radius, rect),
        rect.center.y + rect.half.y + radius <= i64::MAX,
    ensures
        bounced(b, radius, rect).velocity == (Vec2 { x: 0, y: -b.velocity.y as i64 }),
        bounced(b, radius, rect).position == (Vec2 {
            x: b.position.x,
            y: (rect.center.y + rect.half.y + radius) as i64,
        }),
{
}

/// At a corner, where the center lies beyond the rectangle on both axes, a
/// velocity moving into the corner is mirrored across the composed normal:
/// its components swap, and both change sign where the normal's components
/// have the same sign.
pub proof fn corner_mirrors(b: Ball, radius: int, rect: Rect)
    requires
        velocity_ok(b.velocity),
        abs(b.position.x - rect.center.x) > rect.half.x,
        abs(b.position.y - rect.center.y) > rect.half.y,
        dot(b.velocity, contact_normal(b.position, rect)) < 0,
    ensures
        (b.position.x >= rect.center.x) == (b.position.y >= rect.center.y) ==> bounced(b, radius, rect).velocity
            == (Vec2 { x: -b.velocity.y as i64, y: -b.velocity.x as i64 }),
        (b.position.x >= rect.center.x) != (b.position.y >= rect.center.y) ==> bounced(b, radius, rect).velocity
            == (Vec2 { x: b.velocity.y, y: b.velocity.x }),
{
    let n = contact_normal(b.position, rect);
    let k = dot(b.velocity, n);
    lemma_unit_product(n.x as int, b.velocity.x as int);
    lemma_unit_product(n.y as int, b.velocity.y as int);
    lemma_unit_product(n.x as int, k);
    lemma_unit_product(n.y as int, k);
}

/// A velocity that already moves away from the contact is kept.
pub proof fn moving_away_is_kept(v: Vec2, n: Normal)
    requires
        dot(v, n) >= 0,
    ensures
        reflected(v, n) == v,
{
}

/// Removing lost balls signals the last ball at most once: where it signals,
/// no ball is left, so the next removal does not signal again; and while a
/// ball remains it does not signal.
pub proof fn last_ball_signalled_once(balls: Seq<Ball>, field: Playfield)
    ensures
        last_ball_lost(balls, field) ==> !last_ball_lost(kept(balls, field), field),
        kept(balls, field).len() > 0 ==> !last_ball_lost(balls, field),
        balls.len() > 0 && (forall|k: int| 0 <= k < balls.len() ==> is_lost(#[trigger] balls[k], field))
            ==> last_ball_lost(balls, field),
        (forall|k: int| 0 <= k < balls.len() ==> is_lost(#[trigger] balls[k], field))
            ==> kept(balls, field).len() == 0,
    decreases balls.len(),
{
    if balls.len() > 0 {
        let prev = balls.drop_last();
        if forall|k: int| 0 <= k < balls.len() ==> is_lost(#[trigger] balls[k], field) {
            assert forall|k: int| 0 <= k < prev.len() implies is_lost(#[trigger] prev[k], field) by {
                assert(prev[k] == balls[k]);
            }
            assert(is_lost(balls[balls.len() - 1], field));
            last_ball_signalled_once(prev, field);
        }
    }
}

/// How many balls of `balls` are lost.
pub open spec fn lost_count(balls: Seq<Ball>, field: Playfield) -> int
    decreases balls.len(),
{
    if balls.len() == 0 {
        0
    } else {
        lost_count(balls.drop_last(), field) + if is_lost(balls.last(), field) { 1int } else { 0int }
    }
}

/// Removing lost balls removes exactly the lost ones: as many balls remain
/// as were not lost, and none of them is lost.
pub proof fn lost_balls_removed(balls: Seq<Ball>, field: Playfield)
    ensures
        kept(balls, field).len() == balls.len() - lost_count(balls, field),
        forall|k: int| 0 <= k < kept(balls, field).len() ==> !is_lost(#[trigger] kept(balls, field)[k], field),
    decreases balls.len(),
{
    if balls.len() > 0 {
        lost_balls_removed(balls.drop_last(), field);
        let r = kept(balls.drop_last(), field);
        if !is_lost(balls.last(), field) {
            assert forall|k: int| 0 <= k < r.push(balls.last()).len() implies !is_lost(#[trigger] r.push(balls.last())[k], field) by {
                if k < r.len() {
                    assert(r.push(balls.last())[k] == r[k]);
                }
            }
        }
    }
}

/// A menu request wins over a restart request in the same tick: the session
/// goes to the menu, reset.
pub proof fn menu_wins_over_restart(s: Session, events: PendingEvents, input: ModeInput)
    requires
        events.menu_requested > 0,
        events.restart_requested > 0,
    ensures
        transition_of(s.mode, events, input) == Transition::ToMenu,
        session_after(s, transition_of(s.mode, events, input)).app == AppState::Menu,
        session_after(s, transition_of(s.mode, events, input)).mode == InGameState::Idle,
{
}

/// The step after `n` changes by `delta`, starting at `p`.
pub open spec fn changed_times(p: int, delta: int, n: nat) -> int
    decreases n,
{
    if n == 0 {
        p
    } else {
        clamp_points(changed_times(p, delta, (n - 1) as nat) + delta)
    }
}

/// Raising a step `n` times reaches `min(p + n, MAX_POINTS)` and stays at
/// the maximum; lowering it `n` times reaches `max(p - n, MIN_POINTS)` and
/// stays at the minimum.
pub proof fn change_points_saturates(p: int, n: nat)
    requires
        MIN_POINTS <= p <= MAX_POINTS,
    ensures
        changed_times(p, 1, n) == if p + n > MAX_POINTS { MAX_POINTS as int } else { p + n },
        changed_times(p, -1, n) == if p - n < MIN_POINTS { MIN_POINTS as int } else { p - n },
    decreases n,
{
    if n > 0 {
        change_points_saturates(p, (n - 1) as nat);
    }
}

/// The step reached from `p` after `n` moves by `delta`, clamped: up to
/// `MAX_POINTS` when raising, down to `MIN_POINTS` when lowering.
pub open spec fn saturated(p: int, delta: int, n: nat) -> int {
    if delta > 0 {
        if p + n > MAX_POINTS { MAX_POINTS as int } else { p + n }
    } else {
        if p - n < MIN_POINTS { MIN_POINTS as int } else { p - n }
    }
}

/// The settings after the same keys on `n` ticks.
pub open spec fn settings_after_times(s: Settings, input: SettingsInput, n: nat) -> Settings
    decreases n,
{
    if n == 0 {
        s
    } else {
        settings_after(settings_after_times(s, input, (n - 1) as nat), input)
    }
}

/// Pressing raise (or lower) on `n` ticks with a setting selected moves that
/// setting `n` steps up (or down), and no further than the maximum (or the
/// minimum); the settings not selected stay as they are.
pub proof fn repeated_settings_keys_saturate(s: Settings, input: SettingsInput, n: nat)
    requires
        s.wf(),
        input_delta(input) != 0,
    ensures
        settings_after_times(s, input, n).wf(),
        settings_after_times(s, input, n).paddle_size.points == if input.paddle_size {
            saturated(s.paddle_size.points as int, input_delta(input), n)
        } else {
            s.paddle_size.points as int
        },
        settings_after_times(s, input, n).paddle_speed.points == if input.paddle_speed {
            saturated(s.paddle_speed.points as int, input_delta(input), n)
        } else {
            s.paddle_speed.points as int
        },
        settings_after_times(s, input, n).ball_size.points == if input.ball_size {
            saturated(s.ball_size.points as int, input_delta(input), n)
        } else {
            s.ball_size.points as int
        },
        settings_after_times(s, input, n).ball_speed.points == if input.ball_speed {
            saturated(s.ball_speed.points as int, input_delta(input), n)
        } else {
            s.ball_speed.points as int
        },
    decreases n,
{
    if n > 0 {
        repeated_settings_keys_saturate(s, input, (n - 1) as nat);
    }
}

} // verus!
