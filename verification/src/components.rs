//! Plain data attached to entities.
//!
//! Every record here is pure data in fixed-point units; systems read and
//! rewrite them each frame. Nothing owns behaviour: an entity is whatever
//! combination of these records it carries.

use vstd::prelude::*;
use crate::cpx::{cpx_in_fx, Cpx};
use crate::fx::{fx_add, fx_add_spec, fx_sub, fx_sub_spec, iabs, in_fx};

verus! {

/// An axis-aligned rectangle: corner plus extent, fixed-point pixels.
#[derive(Clone, Copy, Debug, PartialEq, Eq, Structural)]
pub struct Rect {
    pub x: i64,
    pub y: i64,
    pub w: i64,
    pub h: i64,
}

/// A rectangle's fields are in the fixed-point range.
pub open spec fn rect_in_fx(r: Rect) -> bool {
    in_fx(r.x as int) && in_fx(r.y as int) && in_fx(r.w as int) && in_fx(r.h as int)
}

/// Whether a point lies in the rectangle, both borders included.
pub open spec fn rect_contains_spec(r: Rect, p: Cpx) -> bool {
    r.x <= p.re <= fx_add_spec(r.x as int, r.w as int)
        && r.y <= p.im <= fx_add_spec(r.y as int, r.h as int)
}

impl Rect {
    /// Build a rectangle from its corner and extent.
    pub fn new(x: i64, y: i64, w: i64, h: i64) -> (r: Rect)
        ensures
            r == (Rect { x, y, w, h }),
    {
        Rect { x, y, w, h }
    }

    /// Whether a point lies in the rectangle, borders included.
    pub fn contains(&self, p: &Cpx) -> (r: bool)
        requires
            rect_in_fx(*self),
            cpx_in_fx(*p),
        ensures
            r == rect_contains_spec(*self, *p),
    {
        self.x <= p.re && p.re <= fx_add(self.x, self.w) && self.y <= p.im
            && p.im <= fx_add(self.y, self.h)
    }
}

/// One cell of the sprite atlas: the side of the square grid, fixed-point
/// pixels.
pub const SPRITE_CELL: i64 = 32_000;

/// Source rectangle of the sprite-sheet cell at grid position `(x, y)` with
/// the given extent.
pub fn get_sprite_coord(x: i64, y: i64, width: i64, height: i64) -> (r: Rect)
    requires
        0 <= x <= 1000,
        0 <= y <= 1000,
        in_fx(width as int),
        in_fx(height as int),
    ensures
        r.x == x * SPRITE_CELL,
        r.y == y * SPRITE_CELL,
        r.w == width,
        r.h == height,
{
    Rect { x: x * SPRITE_CELL, y: y * SPRITE_CELL, w: width, h: height }
}

/// A reference into the texture atlas: symbolic sheet name plus source cell.
#[derive(Clone, Copy, Debug)]
pub struct Sprite {
    pub name: &'static str,
    pub src: Rect,
}

impl Sprite {
    /// Sprite at grid cell `(x, y)` of the named sheet.
    pub fn new(name: &'static str, x: i64, y: i64, width: i64, height: i64) -> (r: Sprite)
        requires
            0 <= x <= 1000,
            0 <= y <= 1000,
            in_fx(width as int),
            in_fx(height as int),
        ensures
            r.name == name,
            r.src.x == x * SPRITE_CELL,
            r.src.y == y * SPRITE_CELL,
            r.src.w == width,
            r.src.h == height,
    {
        Sprite { name, src: get_sprite_coord(x, y, width, height) }
    }
}

/// Where an entity stands: position, non-uniform scale and a rotation in
/// fixed-point degrees, all mutated by the movement pass.
#[derive(Clone, Copy, Debug, PartialEq, Eq, Structural)]
pub struct Transform2D {
    pub position: Cpx,
    pub scale: Cpx,
    pub rotation: i64,
}

/// A transform's fields are in the fixed-point range.
pub open spec fn transform_in_fx(t: Transform2D) -> bool {
    cpx_in_fx(t.position) && cpx_in_fx(t.scale) && in_fx(t.rotation as int)
}

impl Transform2D {
    /// Build a transform.
    pub fn new(position: Cpx, scale: Cpx, rotation: i64) -> (r: Transform2D)
        ensures
            r == (Transform2D { position, scale, rotation }),
    {
        Transform2D { position, scale, rotation }
    }

    /// The position.
    pub fn position(&self) -> (r: &Cpx)
        ensures
            *r == self.position,
    {
        &self.position
    }

    /// The scale.
    pub fn scale(&self) -> (r: &Cpx)
        ensures
            *r == self.scale,
    {
        &self.scale
    }

    /// The rotation in fixed-point degrees.
    pub fn rotation(&self) -> (r: &i64)
        ensures
            *r == self.rotation,
    {
        &self.rotation
    }
}

/// A circular hitbox: radius and offset from the transform origin.
#[derive(Clone, Copy, Debug, PartialEq, Eq, Structural)]
pub struct CircleHitbox {
    pub radius: i64,
    pub offset: Cpx,
}

/// A hitbox's fields are in the fixed-point range.
pub open spec fn hitbox_in_fx(h: CircleHitbox) -> bool {
    in_fx(h.radius as int) && cpx_in_fx(h.offset)
}

/// A hitbox centre: the entity position displaced by the hitbox offset.
pub open spec fn hit_center_spec(t: Transform2D, h: CircleHitbox) -> (int, int) {
    (
        fx_add_spec(t.position.re as int, h.offset.re as int),
        fx_add_spec(t.position.im as int, h.offset.im as int),
    )
}

/// Two circles overlap when the squared distance of their centres is at most
/// the square of the sum of their radii. Centre differences and the radius
/// sum are clamped fixed-point values, so the comparison is exact integer
/// arithmetic.
pub open spec fn circles_intersect_spec(
    t1: Transform2D,
    h1: CircleHitbox,
    t2: Transform2D,
    h2: CircleHitbox,
) -> bool {
    let c1 = hit_center_spec(t1, h1);
    let c2 = hit_center_spec(t2, h2);
    let dx = fx_sub_spec(c1.0, c2.0);
    let dy = fx_sub_spec(c1.1, c2.1);
    let rr = fx_add_spec(h1.radius as int, h2.radius as int);
    dx * dx + dy * dy <= rr * rr
}

impl CircleHitbox {
    /// Build a hitbox.
    pub fn new(radius: i64, offset: Cpx) -> (r: CircleHitbox)
        ensures
            r == (CircleHitbox { radius, offset }),
    {
        CircleHitbox { radius, offset }
    }

    /// Exact circle-circle overlap test between this hitbox at
    /// `current_pos` and `target_hitbox` at `target_pos`.
    pub fn is_intersect(
        &self,
        current_pos: &Transform2D,
        target_pos: &Transform2D,
        target_hitbox: &CircleHitbox,
    ) -> (r: bool)
        requires
            hitbox_in_fx(*self),
            hitbox_in_fx(*target_hitbox),
            transform_in_fx(*current_pos),
            transform_in_fx(*target_pos),
        ensures
            r == circles_intersect_spec(*current_pos, *self, *target_pos, *target_hitbox),
    {
        let cx1 = fx_add(current_pos.position.re, self.offset.re);
        let cy1 = fx_add(current_pos.position.im, self.offset.im);
        let cx2 = fx_add(target_pos.position.re, target_hitbox.offset.re);
        let cy2 = fx_add(target_pos.position.im, target_hitbox.offset.im);
        let dx = fx_sub(cx1, cx2);
        let dy = fx_sub(cy1, cy2);
        let rr = fx_add(self.radius, target_hitbox.radius);
        proof {
            assert(dx * dx <= 4_000_000_000_000_000_000
                && dy * dy <= 4_000_000_000_000_000_000
                && dx * dx >= 0 && dy * dy >= 0
                && rr * rr <= 4_000_000_000_000_000_000
                && rr * rr >= 0) by (nonlinear_arith)
                requires
                    in_fx(dx as int),
                    in_fx(dy as int),
                    in_fx(rr as int);
        }
        dx * dx + dy * dy <= rr * rr
    }
}

/// Current and maximum health, with a flag that makes damage a no-op.
#[derive(Clone, Copy, Debug, PartialEq, Eq, Structural)]
pub struct Hitpoint {
    pub hp: i64,
    pub max_hp: i64,
    pub invulnerable: bool,
}

/// A hitpoint record's fields are in the fixed-point range.
pub open spec fn hitpoint_in_fx(h: Hitpoint) -> bool {
    in_fx(h.hp as int) && in_fx(h.max_hp as int)
}

impl Hitpoint {
    /// Full health at `hp`.
    pub fn new(hp: i64) -> (r: Hitpoint)
        requires
            in_fx(hp as int),
        ensures
            r == (Hitpoint { hp, max_hp: hp, invulnerable: false }),
            hitpoint_in_fx(r),
    {
        Hitpoint { hp, max_hp: hp, invulnerable: false }
    }

    /// A record that ignores all damage.
    pub fn invulnerable() -> (r: Hitpoint)
        ensures
            r == (Hitpoint { hp: 1000, max_hp: 1000, invulnerable: true }),
            hitpoint_in_fx(r),
    {
        Hitpoint { hp: 1000, max_hp: 1000, invulnerable: true }
    }

    /// Death is health strictly below zero; `damage` already reports lethal
    /// at zero, and that asymmetry at exactly zero is kept as it stands.
    pub fn is_dead(&self) -> (r: bool)
        ensures
            r == (!self.invulnerable && self.hp < 0),
    {
        if self.invulnerable {
            return false;
        }
        self.hp < 0
    }

    /// Subtract `damage` from health unless invulnerable; reports whether the
    /// hit was lethal, meaning health fell to zero or below.
    pub fn damage(&mut self, damage: i64) -> (r: bool)
        requires
            hitpoint_in_fx(*old(self)),
            in_fx(damage as int),
        ensures
            *final(self) == if old(self).invulnerable {
                *old(self)
            } else {
                Hitpoint {
                    hp: fx_sub_spec(old(self).hp as int, damage as int) as i64,
                    ..*old(self)
                }
            },
            r == (!old(self).invulnerable && fx_sub_spec(old(self).hp as int, damage as int) <= 0),
            hitpoint_in_fx(*final(self)),
    {
        if !self.invulnerable {
            self.hp = fx_sub(self.hp, damage);
            return self.hp <= 0;
        }
        false
    }
}

/// Rotation angle and angular speed of the cosmetic focus halo.
#[derive(Clone, Copy, Debug, PartialEq, Eq, Structural)]
pub struct Focusable(pub i64, pub i64);

/// A focus halo's fields are in the fixed-point range.
pub open spec fn focusable_in_fx(f: Focusable) -> bool {
    in_fx(f.0 as int) && in_fx(f.1 as int)
}

/// Random-patrol steering state for roaming enemies.
#[derive(Clone, Copy, Debug, PartialEq, Eq, Structural)]
pub struct Wanderable {
    /// Rectangle the patrol targets are drawn from.
    pub wander_size: Rect,
    /// Position at the last retarget.
    pub last_pos: Cpx,
    /// Current steering target, if any.
    pub target_pos: Option<Cpx>,
    /// Time waited since the target was cleared, fixed-point seconds.
    pub elapsed: i64,
    /// Wait before a new target is drawn, fixed-point seconds.
    pub wait: i64,
    /// Patrol speed, fixed-point pixels per second.
    pub speed: i64,
}

/// A wander record's fields are in the fixed-point range.
pub open spec fn wanderable_in_fx(w: Wanderable) -> bool {
    rect_in_fx(w.wander_size) && cpx_in_fx(w.last_pos) && in_fx(w.elapsed as int)
        && in_fx(w.wait as int) && in_fx(w.speed as int)
        && (w.target_pos is Some ==> cpx_in_fx(w.target_pos->0))
}

impl Wanderable {
    /// A patrol over `wander_size` at `speed`, waiting `wait` seconds between
    /// targets.
    pub fn new(wander_size: Rect, last_pos: Cpx, speed: i64, wait: i64) -> (r: Wanderable)
        requires
            rect_in_fx(wander_size),
            cpx_in_fx(last_pos),
            in_fx(speed as int),
            in_fx(wait as int),
        ensures
            r == (Wanderable {
                wander_size,
                last_pos,
                target_pos: None::<Cpx>,
                elapsed: 0,
                wait,
                speed,
            }),
            wanderable_in_fx(r),
    {
        Wanderable { wander_size, last_pos, target_pos: None, elapsed: 0, wait, speed }
    }
}

/// Circle collision: for hitboxes and positions within half the fixed-point
/// range, two circles are reported intersecting exactly when the squared
/// distance between their centres is at most the square of the sum of their
/// radii — touching counts as intersecting.
pub proof fn lemma_circle_collision(
    t1: Transform2D,
    h1: CircleHitbox,
    t2: Transform2D,
    h2: CircleHitbox,
)
    requires
        iabs(t1.position.re as int) <= 500_000_000,
        iabs(t1.position.im as int) <= 500_000_000,
        iabs(t2.position.re as int) <= 500_000_000,
        iabs(t2.position.im as int) <= 500_000_000,
        iabs(h1.offset.re as int) <= 500_000_000,
        iabs(h1.offset.im as int) <= 500_000_000,
        iabs(h2.offset.re as int) <= 500_000_000,
        iabs(h2.offset.im as int) <= 500_000_000,
        iabs(h1.radius as int) <= 500_000_000,
        iabs(h2.radius as int) <= 500_000_000,
    ensures
        ({
            let dx = (t1.position.re + h1.offset.re) - (t2.position.re + h2.offset.re);
            let dy = (t1.position.im + h1.offset.im) - (t2.position.im + h2.offset.im);
            let rr = h1.radius + h2.radius;
            circles_intersect_spec(t1, h1, t2, h2) <==> dx * dx + dy * dy <= rr * rr
        }),
{
}

} // verus!
