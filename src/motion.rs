//! Ball motion: integration over a tick, bounces on obstacles and on the
//! playfield's edges, and removal of the balls that left the playfield.
use vstd::prelude::*;
use vstd::arithmetic::div_mod::{lemma_div_by_multiple, lemma_div_is_ordered};
use crate::collider::{
    abs, contact_normal, intersects, is_unit_normal, touches, Normal, Rect, Vec2,
};

verus! {

/// Largest magnitude of a coordinate, half-extent or radius that an
/// obstacle bounce accepts, so that a ball pushed out of an obstacle still
/// has coordinates that fit.
pub const COORD_LIMIT: i64 = 0x1000_0000_0000_0000;

/// A ball: where it is, in thousandths of a pixel, and how fast it moves, in
/// thousandths of a pixel per millisecond. Its radius is common to all balls.
#[derive(Clone, Copy, Debug, PartialEq, Eq, Structural)]
pub struct Ball {
    pub position: Vec2,
    pub velocity: Vec2,
}

#[derive(Clone, Copy, Debug, PartialEq, Eq, Structural)]
pub enum ObstacleKind {
    Brick,
    Paddle,
}

/// Something a ball bounces on: a brick or the paddle.
#[derive(Clone, Copy, Debug, PartialEq, Eq, Structural)]
pub struct Obstacle {
    pub id: u64,
    pub kind: ObstacleKind,
    pub rect: Rect,
}

/// The playfield's bounds on a ball's center; y grows upwards.
#[derive(Clone, Copy, Debug, PartialEq, Eq, Structural)]
pub struct Playfield {
    pub left: i64,
    pub right: i64,
    pub bottom: i64,
    pub top: i64,
}

impl Playfield {
    pub open spec fn wf(self) -> bool {
        self.left <= self.right && self.bottom <= self.top
    }
}

/// A velocity whose components can be negated.
pub open spec fn velocity_ok(v: Vec2) -> bool {
    v.x > i64::MIN && v.y > i64::MIN
}

pub open spec fn rect_bounded(r: Rect) -> bool {
    &&& abs(r.center.x as int) <= COORD_LIMIT
    &&& abs(r.center.y as int) <= COORD_LIMIT
    &&& abs(r.half.x as int) <= COORD_LIMIT
    &&& abs(r.half.y as int) <= COORD_LIMIT
}

pub open spec fn obstacles_bounded(obs: Seq<Obstacle>) -> bool {
    forall|i: int| 0 <= i < obs.len() ==> rect_bounded(#[trigger] obs[i].rect)
}

/// `position + velocity * dt`.
pub open spec fn integrated(b: Ball, dt: int) -> Ball {
    Ball {
        position: Vec2 {
            x: (b.position.x + b.velocity.x * dt) as i64,
            y: (b.position.y + b.velocity.y * dt) as i64,
        },
        velocity: b.velocity,
    }
}

pub open spec fn integration_fits(b: Ball, dt: int) -> bool {
    &&& i64::MIN <= b.position.x + b.velocity.x * dt <= i64::MAX
    &&& i64::MIN <= b.position.y + b.velocity.y * dt <= i64::MAX
}

/// Mirror one velocity component so that it points along `n`; a component
/// whose normal component is 0 is kept.
pub open spec fn reflect_axis(v: int, n: int) -> int {
    if n > 0 {
        abs(v)
    } else if n < 0 {
        -abs(v)
    } else {
        v
    }
}

/// `n · v`: negative while `v` moves into the obstacle that `n` points away from.
pub open spec fn dot(v: Vec2, n: Normal) -> int {
    n.x * v.x + n.y * v.y
}

/// The mirror image of a velocity moving into an obstacle, across the
/// surface whose normal is `n`: `v - 2 (v · n) n / |n|²`, where `|n|²` is 1
/// for an axis normal and 2 for a corner's composed normal. A velocity that
/// already moves away is kept.
pub open spec fn reflected(v: Vec2, n: Normal) -> Vec2 {
    let k = dot(v, n);
    if k >= 0 {
        v
    } else if n.x != 0 && n.y != 0 {
        Vec2 { x: (v.x - n.x * k) as i64, y: (v.y - n.y * k) as i64 }
    } else {
        Vec2 { x: (v.x - 2 * (n.x * k)) as i64, y: (v.y - 2 * (n.y * k)) as i64 }
    }
}

/// Along each axis of the normal, the center is placed just outside the
/// rectangle's edge on the normal's side.
pub open spec fn push_axis(c: int, center: int, half: int, radius: int, n: int) -> int {
    if n > 0 {
        center + half + radius
    } else if n < 0 {
        center - half - radius
    } else {
        c
    }
}

pub open spec fn pushed_out(c: Vec2, radius: int, rect: Rect, n: Normal) -> Vec2 {
    Vec2 {
        x: push_axis(c.x as int, rect.center.x as int, rect.half.x as int, radius, n.x as int) as i64,
        y: push_axis(c.y as int, rect.center.y as int, rect.half.y as int, radius, n.y as int) as i64,
    }
}

/// A ball after bouncing on `rect`: velocity reflected along the contact
/// normal and position moved out of the rectangle.
pub open spec fn bounced(b: Ball, radius: int, rect: Rect) -> Ball {
    let n = contact_normal(b.position, rect);
    Ball { position: pushed_out(b.position, radius, rect, n), velocity: reflected(b.velocity, n) }
}

/// Ghost bricks take no part in collisions.
pub open spec fn solid(o: Obstacle, bricks_ghost: bool) -> bool {
    !(bricks_ghost && o.kind == ObstacleKind::Brick)
}

pub open spec fn hits(o: Obstacle, c: Vec2, radius: int, bricks_ghost: bool) -> bool {
    solid(o, bricks_ghost) && touches(c, radius, o.rect)
}

/// Index of the first obstacle of `obs` that the ball hits.
pub open spec fn first_hit(obs: Seq<Obstacle>, c: Vec2, radius: int, bricks_ghost: bool) -> Option<int>
    decreases obs.len(),
{
    if obs.len() == 0 {
        None
    } else {
        match first_hit(obs.drop_last(), c, radius, bricks_ghost) {
            Some(i) => Some(i),
            None => if hits(obs.last(), c, radius, bricks_ghost) {
                Some(obs.len() - 1)
            } else {
                None
            },
        }
    }
}

/// A ball after bouncing on the first obstacle it hits, if any.
pub open spec fn after_obstacles(b: Ball, radius: int, obs: Seq<Obstacle>, bricks_ghost: bool) -> Ball {
    match first_hit(obs, b.position, radius, bricks_ghost) {
        Some(i) => bounced(b, radius, obs[i].rect),
        None => b,
    }
}

/// A ball after the edges: beyond the left or right bound its center is
/// clamped to that bound and its horizontal velocity turned inwards; above
/// the top likewise. The bottom does not reflect.
pub open spec fn edge_bounced(b: Ball, field: Playfield) -> Ball {
    let p = b.position;
    let v = b.velocity;
    let (x, vx) = if p.x < field.left {
        (field.left, abs(v.x as int) as i64)
    } else if p.x > field.right {
        (field.right, (-abs(v.x as int)) as i64)
    } else {
        (p.x, v.x)
    };
    let (y, vy) = if p.y > field.top {
        (field.top, (-abs(v.y as int)) as i64)
    } else {
        (p.y, v.y)
    };
    Ball { position: Vec2 { x, y }, velocity: Vec2 { x: vx, y: vy } }
}

pub open spec fn as_index(h: Option<usize>) -> Option<int> {
    match h {
        Some(i) => Some(i as int),
        None => None,
    }
}

/// A ball is lost once its center is below the playfield's bottom.
pub open spec fn is_lost(b: Ball, field: Playfield) -> bool {
    b.position.y < field.bottom
}

fn reflect_component(v: i64, n: i8) -> (r: i64)
    requires
        v > i64::MIN,
    ensures
        r == reflect_axis(v as int, n as int),
{
    if n > 0 {
        if v < 0 { -v } else { v }
    } else if n < 0 {
        if v < 0 { v } else { -v }
    } else {
        v
    }
}

fn push_component(c: i64, center: i64, half: i64, radius: i64, n: i8) -> (r: i64)
    requires
        abs(center as int) <= COORD_LIMIT,
        abs(half as int) <= COORD_LIMIT,
        0 <= radius <= COORD_LIMIT,
    ensures
        r == push_axis(c as int, center as int, half as int, radius as int, n as int),
{
    if n > 0 {
        center + half + radius
    } else if n < 0 {
        center - half - radius
    } else {
        c
    }
}

/// Multiplying by a normal's component, which is -1, 0 or 1.
pub proof fn lemma_unit_product(n: int, v: int)
    requires
        -1 <= n <= 1,
    ensures
        n * v == (if n > 0 { v } else if n < 0 { -v } else { 0 }),
{
    if n == 1 {
    } else if n == -1 {
    } else {
    }
}

fn reflect_velocity(v: Vec2, n: Normal) -> (r: Vec2)
    requires
        velocity_ok(v),
        is_unit_normal(n),
    ensures
        r == reflected(v, n),
        velocity_ok(r),
{
    let kx: i128 = if n.x > 0 {
        v.x as i128
    } else if n.x < 0 {
        -(v.x as i128)
    } else {
        0
    };
    let ky: i128 = if n.y > 0 {
        v.y as i128
    } else if n.y < 0 {
        -(v.y as i128)
    } else {
        0
    };
    proof {
        lemma_unit_product(n.x as int, v.x as int);
        lemma_unit_product(n.y as int, v.y as int);
    }
    if kx + ky >= 0 {
        return v;
    }
    proof {
        lemma_unit_product(n.x as int, kx + ky);
        lemma_unit_product(n.y as int, kx + ky);
    }
    if n.x != 0 && n.y != 0 {
        if (n.x > 0) == (n.y > 0) {
            Vec2 { x: -v.y, y: -v.x }
        } else {
            Vec2 { x: v.y, y: v.x }
        }
    } else if n.x != 0 {
        Vec2 { x: -v.x, y: v.y }
    } else {
        Vec2 { x: v.x, y: -v.y }
    }
}

/// Advances a ball by `dt_ms` milliseconds along its velocity.
pub fn integrate(ball: &mut Ball, dt_ms: u32)
    requires
        integration_fits(*old(ball), dt_ms as int),
    ensures
        *final(ball) == integrated(*old(ball), dt_ms as int),
{
    let dt: i128 = dt_ms as i128;
    proof {
        assert(-0x8000_0000_0000_0000 * 0x1_0000_0000 <= ball.velocity.x * dt <= 0x8000_0000_0000_0000 * 0x1_0000_0000) by (nonlinear_arith)
            requires -0x8000_0000_0000_0000 <= ball.velocity.x <= 0x8000_0000_0000_0000, 0 <= dt <= 0x1_0000_0000;
        assert(-0x8000_0000_0000_0000 * 0x1_0000_0000 <= ball.velocity.y * dt <= 0x8000_0000_0000_0000 * 0x1_0000_0000) by (nonlinear_arith)
            requires -0x8000_0000_0000_0000 <= ball.velocity.y <= 0x8000_0000_0000_0000, 0 <= dt <= 0x1_0000_0000;
    }
    let x: i128 = ball.position.x as i128 + ball.velocity.x as i128 * dt;
    let y: i128 = ball.position.y as i128 + ball.velocity.y as i128 * dt;
    ball.position = Vec2 { x: x as i64, y: y as i64 };
}

/// Bounces a ball on the first obstacle, in the order of `obstacles`, that it
/// touches and that is not a ghost brick; at most one bounce per call.
/// Returns the index of that obstacle.
pub fn bounce_ball_on_obstacles(ball: &mut Ball, radius: i64, obstacles: &Vec<Obstacle>, bricks_ghost: bool)
    -> (hit: Option<usize>)
    requires
        0 <= radius <= COORD_LIMIT,
        velocity_ok(old(ball).velocity),
        obstacles_bounded(obstacles@),
    ensures
        first_hit(obstacles@, old(ball).position, radius as int, bricks_ghost)
            == as_index(hit),
        hit matches Some(k) ==> k < obstacles@.len(),
        velocity_ok(final(ball).velocity),
        *final(ball) == after_obstacles(*old(ball), radius as int, obstacles@, bricks_ghost),
{
    let mut j: usize = 0;
    while j < obstacles.len()
        invariant
            j <= obstacles@.len(),
            *ball == *old(ball),
            0 <= radius <= COORD_LIMIT,
            velocity_ok(ball.velocity),
            obstacles_bounded(obstacles@),
            first_hit(obstacles@.take(j as int), ball.position, radius as int, bricks_ghost) is None,
        decreases obstacles@.len() - j,
    {
        let o = obstacles[j];
        proof {
            assert(obstacles@.take(j + 1).drop_last() =~= obstacles@.take(j as int));
        }
        let solid_here = !(bricks_ghost && o.kind == ObstacleKind::Brick);
        if solid_here {
            match intersects(ball.position, radius, o.rect) {
                Some(n) => {
                    proof {
                        lemma_first_hit_prefix(obstacles@, j as int, ball.position, radius as int, bricks_ghost);
                        assert(rect_bounded(obstacles@[j as int].rect));
                    }
                    let vel = reflect_velocity(ball.velocity, n);
                    let px = push_component(ball.position.x, o.rect.center.x, o.rect.half.x, radius, n.x);
                    let py = push_component(ball.position.y, o.rect.center.y, o.rect.half.y, radius, n.y);
                    *ball = Ball { position: Vec2 { x: px, y: py }, velocity: vel };
                    return Some(j);
                },
                None => {},
            }
        }
        j = j + 1;
    }
    proof {
        assert(obstacles@.take(j as int) =~= obstacles@);
    }
    None
}

/// Where the first hit of a sequence falls in a prefix, it is the first hit
/// of the whole sequence.
proof fn lemma_first_hit_prefix(obs: Seq<Obstacle>, j: int, c: Vec2, radius: int, bricks_ghost: bool)
    requires
        0 <= j < obs.len(),
        first_hit(obs.take(j + 1), c, radius, bricks_ghost) == Some(j),
    ensures
        first_hit(obs, c, radius, bricks_ghost) == Some(j),
    decreases obs.len(),
{
    if obs.len() == j + 1 {
        assert(obs.take(j + 1) =~= obs);
    } else {
        assert(obs.drop_last().take(j + 1) =~= obs.take(j + 1));
        lemma_first_hit_prefix(obs.drop_last(), j, c, radius, bricks_ghost);
    }
}

/// Keeps a ball inside the playfield's left, right and top bounds; returns
/// whether it is below the bottom and thus lost.
pub fn bounce_ball_on_edges(ball: &mut Ball, field: Playfield) -> (lost: bool)
    requires
        velocity_ok(old(ball).velocity),
    ensures
        *final(ball) == edge_bounced(*old(ball), field),
        lost == is_lost(*final(ball), field),
{
    let mut p = ball.position;
    let mut v = ball.velocity;
    if p.x < field.left {
        p.x = field.left;
        v.x = reflect_component(v.x, 1);
    } else if p.x > field.right {
        p.x = field.right;
        v.x = reflect_component(v.x, -1);
    }
    if p.y > field.top {
        p.y = field.top;
        v.y = reflect_component(v.y, -1);
    }
    *ball = Ball { position: p, velocity: v };
    p.y < field.bottom
}

/// The balls of `balls` that are not lost, in their order.
pub open spec fn kept(balls: Seq<Ball>, field: Playfield) -> Seq<Ball>
    decreases balls.len(),
{
    if balls.len() == 0 {
        seq![]
    } else {
        let rest = kept(balls.drop_last(), field);
        if is_lost(balls.last(), field) {
            rest
        } else {
            rest.push(balls.last())
        }
    }
}

/// Whether removing the lost balls of `balls` removes the last ball.
pub open spec fn last_ball_lost(balls: Seq<Ball>, field: Playfield) -> bool {
    balls.len() > 0 && kept(balls, field).len() == 0
}

/// Removes the balls below the playfield's bottom, keeping the order of the
/// others. Returns whether the last remaining ball was removed by this call.
pub fn keep_destroying_balls(balls: &mut Vec<Ball>, field: Playfield) -> (last_ball_destroyed: bool)
    ensures
        final(balls)@ == kept(old(balls)@, field),
        last_ball_destroyed == last_ball_lost(old(balls)@, field),
        last_ball_destroyed == (old(balls)@.len() > 0 && final(balls)@.len() == 0),
{
    let mut out: Vec<Ball> = Vec::new();
    let mut i: usize = 0;
    while i < balls.len()
        invariant
            i <= balls@.len(),
            *balls == *old(balls),
            out@ == kept(balls@.take(i as int), field),
        decreases balls@.len() - i,
    {
        let b = balls[i];
        proof {
            assert(balls@.take(i + 1).drop_last() =~= balls@.take(i as int));
        }
        if b.position.y >= field.bottom {
            out.push(b);
        }
        i = i + 1;
    }
    proof {
        assert(balls@.take(i as int) =~= balls@);
    }
    let had_balls = balls.len() > 0;
    *balls = out;
    had_balls && balls.len() == 0
}

/// A ball after one tick: integrated, bounced on the first obstacle it hits,
/// then on the edges.
pub open spec fn stepped(b: Ball, radius: int, obs: Seq<Obstacle>, bricks_ghost: bool, field: Playfield, dt: int) -> Ball {
    edge_bounced(after_obstacles(integrated(b, dt), radius, obs, bricks_ghost), field)
}

/// A brick that is hit is destroyed.
pub open spec fn destroys(obs: Seq<Obstacle>, hit: Option<int>) -> bool {
    match hit {
        Some(i) => obs[i].kind == ObstacleKind::Brick,
        None => false,
    }
}

pub open spec fn after_hit(obs: Seq<Obstacle>, hit: Option<int>) -> Seq<Obstacle> {
    if destroys(obs, hit) {
        obs.remove(hit.unwrap())
    } else {
        obs
    }
}

pub open spec fn destroyed_ids(obs: Seq<Obstacle>, hit: Option<int>) -> Seq<u64> {
    if destroys(obs, hit) {
        seq![obs[hit.unwrap()].id]
    } else {
        seq![]
    }
}

/// One tick over `balls`, taken in order: the balls after it, the obstacles
/// that remain, and the ids of the bricks destroyed, in order. A brick
/// destroyed by one ball is gone for the balls after it.
pub open spec fn tick(
    balls: Seq<Ball>,
    obs: Seq<Obstacle>,
    radius: int,
    bricks_ghost: bool,
    field: Playfield,
    dt: int,
) -> (Seq<Ball>, Seq<Obstacle>, Seq<u64>)
    decreases balls.len(),
{
    if balls.len() == 0 {
        (seq![], obs, seq![])
    } else {
        let (bs, os, ids) = tick(balls.drop_last(), obs, radius, bricks_ghost, field, dt);
        let moved = integrated(balls.last(), dt);
        let hit = first_hit(os, moved.position, radius, bricks_ghost);
        (
            bs.push(stepped(balls.last(), radius, os, bricks_ghost, field, dt)),
            after_hit(os, hit),
            ids + destroyed_ids(os, hit),
        )
    }
}

pub open spec fn balls_movable(balls: Seq<Ball>, dt: int) -> bool {
    forall|k: int|
        0 <= k < balls.len() ==> velocity_ok(#[trigger] balls[k].velocity) && integration_fits(balls[k], dt)
}

/// Moves every ball by one tick of `dt_ms` milliseconds: integration, then a
/// bounce on the first obstacle hit, then the edges. Bricks that are hit are
/// removed from `obstacles`; their ids are returned in the order of the hits.
/// Contacts are tested only where a ball is at the end of the tick, and the
/// normal is taken from that position. A ball whose center has passed an
/// obstacle's middle within one tick is pushed out of the far side, and one
/// that has passed the whole obstacle is not bounced at all; only a ball
/// that travels at most half the obstacle's thickness plus its own radius in
/// a tick is sure to be sent back the way it came.
pub fn move_balls(
    balls: &mut Vec<Ball>,
    obstacles: &mut Vec<Obstacle>,
    radius: i64,
    bricks_ghost: bool,
    field: Playfield,
    dt_ms: u32,
) -> (destroyed: Vec<u64>)
    requires
        0 <= radius <= COORD_LIMIT,
        obstacles_bounded(old(obstacles)@),
        balls_movable(old(balls)@, dt_ms as int),
    ensures
        (final(balls)@, final(obstacles)@, destroyed@)
            == tick(old(balls)@, old(obstacles)@, radius as int, bricks_ghost, field, dt_ms as int),
{
    let ghost all = balls@;
    let mut destroyed: Vec<u64> = Vec::new();
    let mut i: usize = 0;
    while i < balls.len()
        invariant
            0 <= radius <= COORD_LIMIT,
            i <= balls@.len(),
            balls@.len() == all.len(),
            all == old(balls)@,
            balls_movable(all, dt_ms as int),
            obstacles_bounded(obstacles@),
            forall|k: int| i <= k < all.len() ==> balls@[k] == all[k],
            (balls@.take(i as int), obstacles@, destroyed@)
                == tick(all.take(i as int), old(obstacles)@, radius as int, bricks_ghost, field, dt_ms as int),
        decreases all.len() - i,
    {
        proof {
            assert(all.take(i + 1).drop_last() =~= all.take(i as int));
            assert(velocity_ok(all[i as int].velocity) && integration_fits(all[i as int], dt_ms as int));
        }
        let ghost os = obstacles@;
        let mut b = balls[i];
        integrate(&mut b, dt_ms);
        let hit = bounce_ball_on_obstacles(&mut b, radius, obstacles, bricks_ghost);
        match hit {
            Some(k) => {
                if obstacles[k].kind == ObstacleKind::Brick {
                    destroyed.push(obstacles[k].id);
                    obstacles.remove(k);
                    proof {
                        os.remove_ensures(k as int);
                        assert forall|m: int| 0 <= m < obstacles@.len() implies rect_bounded(#[trigger] obstacles@[m].rect) by {
                            if m < k {
                                assert(obstacles@[m] == os[m]);
                            } else {
                                assert(obstacles@[m] == os[m + 1]);
                            }
                        }
                    }
                }
            },
            None => {},
        }
        bounce_ball_on_edges(&mut b, field);
        let ghost prev = balls@;
        balls.set(i, b);
        proof {
            assert(balls@.take(i + 1) =~= prev.take(i as int).push(b));
            assert(destroyed@ =~= tick(all.take(i as int), old(obstacles)@, radius as int, bricks_ghost, field, dt_ms as int).2
                + destroyed_ids(os, first_hit(os, integrated(all[i as int], dt_ms as int).position, radius as int, bricks_ghost)));
        }
        i = i + 1;
    }
    proof {
        assert(all.take(i as int) =~= all);
        assert(balls@.take(i as int) =~= balls@);
    }
    destroyed
}

/// A velocity component scaled by `new_speed / old_speed`, the magnitude
/// rounded down, the sign kept.
pub open spec fn scaled(v: int, old_speed: int, new_speed: int) -> int {
    if v < 0 {
        -(((-v) * new_speed) / old_speed)
    } else {
        (v * new_speed) / old_speed
    }
}

pub open spec fn rescaled(b: Ball, old_speed: int, new_speed: int) -> Ball {
    Ball {
        position: b.position,
        velocity: Vec2 {
            x: scaled(b.velocity.x as int, old_speed, new_speed) as i64,
            y: scaled(b.velocity.y as int, old_speed, new_speed) as i64,
        },
    }
}

/// Each component of the ball's velocity is at most `speed` in magnitude,
/// as holds of a ball moving at `speed`.
pub open spec fn within_speed(b: Ball, speed: int) -> bool {
    abs(b.velocity.x as int) <= speed && abs(b.velocity.y as int) <= speed
}

fn scale_component(v: i64, old_speed: i64, new_speed: i64) -> (r: i64)
    requires
        0 < old_speed,
        0 < new_speed,
        abs(v as int) <= old_speed,
    ensures
        r == scaled(v as int, old_speed as int, new_speed as int),
        abs(r as int) <= new_speed,
{
    let m: u128 = if v < 0 { (-(v as i128)) as u128 } else { v as u128 };
    proof {
        assert(m * new_speed <= old_speed * new_speed) by (nonlinear_arith)
            requires m <= old_speed, 0 < new_speed;
        assert(old_speed * new_speed <= 0x8000_0000_0000_0000 * 0x8000_0000_0000_0000) by (nonlinear_arith)
            requires 0 < old_speed <= 0x8000_0000_0000_0000, 0 < new_speed <= 0x8000_0000_0000_0000;
        assert(m * new_speed >= 0) by (nonlinear_arith) requires m >= 0, new_speed > 0;
        lemma_div_is_ordered(m * new_speed, new_speed * old_speed, old_speed as int);
        lemma_div_by_multiple(new_speed as int, old_speed as int);
        assert(new_speed * old_speed == old_speed * new_speed) by (nonlinear_arith);
    }
    let q: u128 = m * (new_speed as u128) / (old_speed as u128);
    if v < 0 {
        -(q as i64)
    } else {
        q as i64
    }
}

/// Brings every ball from `old_speed` to `new_speed`: each velocity
/// component is scaled by their ratio, the position and the sign of each
/// component kept.
pub fn keep_ball_synced_with_settings(balls: &mut Vec<Ball>, old_speed: i64, new_speed: i64)
    requires
        0 < old_speed,
        0 < new_speed,
        forall|k: int| 0 <= k < old(balls)@.len() ==> within_speed(#[trigger] old(balls)@[k], old_speed as int),
    ensures
        final(balls)@.len() == old(balls)@.len(),
        forall|k: int|
            0 <= k < old(balls)@.len() ==> #[trigger] final(balls)@[k] == rescaled(old(balls)@[k], old_speed as int, new_speed as int),
        forall|k: int| 0 <= k < old(balls)@.len() ==> within_speed(#[trigger] final(balls)@[k], new_speed as int),
{
    let ghost all = balls@;
    let mut i: usize = 0;
    while i < balls.len()
        invariant
            0 < old_speed,
            0 < new_speed,
            i <= balls@.len(),
            balls@.len() == all.len(),
            all == old(balls)@,
            forall|k: int| 0 <= k < all.len() ==> within_speed(#[trigger] all[k], old_speed as int),
            forall|k: int| i <= k < all.len() ==> balls@[k] == all[k],
            forall|k: int| 0 <= k < i ==> #[trigger] balls@[k] == rescaled(all[k], old_speed as int, new_speed as int),
            forall|k: int| 0 <= k < i ==> within_speed(#[trigger] balls@[k], new_speed as int),
        decreases all.len() - i,
    {
        let b = balls[i];
        proof {
            assert(within_speed(all[i as int], old_speed as int));
        }
        let vx = scale_component(b.velocity.x, old_speed, new_speed);
        let vy = scale_component(b.velocity.y, old_speed, new_speed);
        balls.set(i, Ball { position: b.position, velocity: Vec2 { x: vx, y: vy } });
        i = i + 1;
    }
}

/// Where a ball rests on the paddle: above the paddle's center, touching its
/// top edge.
pub open spec fn resting_on(b: Ball, paddle: Rect, radius: int) -> Ball {
    Ball {
        position: Vec2 {
            x: paddle.center.x,
            y: (paddle.center.y + paddle.half.y + radius) as i64,
        },
        velocity: b.velocity,
    }
}

/// Before play starts, keeps every ball resting on the paddle's center; the
/// velocities are kept for the launch.
pub fn keep_ball_at_paddle_center(balls: &mut Vec<Ball>, paddle: Rect, radius: i64)
    requires
        rect_bounded(paddle),
        0 <= radius <= COORD_LIMIT,
    ensures
        final(balls)@.len() == old(balls)@.len(),
        forall|k: int|
            0 <= k < old(balls)@.len() ==> #[trigger] final(balls)@[k] == resting_on(old(balls)@[k], paddle, radius as int),
{
    let ghost all = balls@;
    let y = paddle.center.y + paddle.half.y + radius;
    let mut i: usize = 0;
    while i < balls.len()
        invariant
            i <= balls@.len(),
            balls@.len() == all.len(),
            all == old(balls)@,
            y == paddle.center.y + paddle.half.y + radius,
            forall|k: int| i <= k < all.len() ==> balls@[k] == all[k],
            forall|k: int| 0 <= k < i ==> #[trigger] balls@[k] == resting_on(all[k], paddle, radius as int),
        decreases all.len() - i,
    {
        let b = balls[i];
        balls.set(i, Ball { position: Vec2 { x: paddle.center.x, y }, velocity: b.velocity });
        i = i + 1;
    }
}

} // verus!
