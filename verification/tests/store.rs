//! The entity store and a few edge cases of the systems.

use danmaku::attack::{fire_attack, AttackMove, BulletSetup};
use danmaku::combat::update_collision;
use danmaku::components::{CircleHitbox, Rect, Sprite, Transform2D};
use danmaku::cpx::Cpx;
use danmaku::difficulty::Difficulty;
use danmaku::rng::Rng;
use danmaku::score::ScoreData;
use danmaku::stage::{EventManager, StageCommand};
use danmaku::systems::{delete_offscreen, rotate_focus, Cue};
use danmaku::timer::{Cooldown, Timer};
use danmaku::world::{Components, World};

#[test]
fn spawn_despawn_and_lookup() {
    let mut w = World::new();
    let a = w.spawn(Components::empty());
    let b = w.spawn(Components::empty());
    let c = w.spawn(Components::empty());
    assert_eq!(w.len(), 3);
    assert!(a < b && b < c);
    assert_eq!(w.find(b), Some(1));
    assert!(w.despawn(b).is_some());
    assert_eq!(w.len(), 2);
    assert!(w.find(b).is_none());
    assert!(w.lookup(b).is_none());
    assert!(w.despawn(b).is_none());
    // Identifiers are never reused.
    let d = w.spawn(Components::empty());
    assert!(d > c);
    assert_eq!(w.find(a), Some(0));
    assert_eq!(w.find(d), Some(2));
}

#[test]
fn culling_rectangle_borders_are_inclusive() {
    let mut w = World::new();
    let mut c = Components::empty();
    c.die_offscreen = true;
    // Exactly on the far border of the culling rectangle.
    c.transform = Some(Transform2D::new(Cpx::new(420_000, 448_000), Cpx::new(1_000, 1_000), 0));
    let id = w.spawn(c);
    delete_offscreen(&mut w);
    assert_eq!(w.lookup(id).unwrap().been_on_screen, Some(true));
    // One unit past the border counts as outside.
    w.entries[0].c.transform = Some(Transform2D::new(Cpx::new(420_001, 448_000),
        Cpx::new(1_000, 1_000), 0));
    delete_offscreen(&mut w);
    assert_eq!(w.len(), 0);
}

#[test]
fn rect_contains_both_borders() {
    let r = Rect::new(0, 0, 10_000, 10_000);
    assert!(r.contains(&Cpx::new(0, 0)));
    assert!(r.contains(&Cpx::new(10_000, 10_000)));
    assert!(!r.contains(&Cpx::new(10_001, 0)));
    assert!(!r.contains(&Cpx::new(0, -1)));
}

#[test]
fn aimed_fan_emits_one_bullet_per_count() {
    let a = AttackMove::AtPlayer {
        num: 3,
        speed: 100_000,
        spread: 12_000,
        total_shoot: 5,
        cooldown: Cooldown(Timer::new(0, true)),
        setup: BulletSetup(
            Sprite::new("miko_sprite", 0, 3, 32_000, 32_000),
            CircleHitbox::new(2_500, Cpx::new(0, 0)),
        ),
    };
    let mut rng = Rng::new(3);
    let mut out = Vec::new();
    fire_attack(&a, Cpx::new(0, 0), Cpx::new(100_000, 0), &mut rng, &mut out);
    assert_eq!(out.len(), 3);
    for b in &out {
        // Each fan bullet moves at roughly the pattern speed, give or take
        // the per-bullet jitter and the unit-vector rounding.
        let v = &b.movement.velocity;
        let speed_sq = v.re * v.re + v.im * v.im;
        assert!(speed_sq > 90_000i64.pow(2));
        assert!(speed_sq < 110_000i64.pow(2));
    }
}

#[test]
fn composite_attacks_fire_all_ready_children() {
    let ring = |period: i64| AttackMove::Circle {
        sides: 2,
        speed: 50_000,
        rotation_per_fire: 1_000,
        rotation: 0,
        cooldown: Cooldown(Timer::new(period, true)),
        setup: BulletSetup(
            Sprite::new("miko_sprite", 0, 3, 32_000, 32_000),
            CircleHitbox::new(2_500, Cpx::new(0, 0)),
        ),
    };
    let mut children: Vec<AttackMove> = Vec::new();
    children.push(ring(0));
    children.push(ring(60_000));
    children.push(ring(0));
    let a = AttackMove::Multiple(children);
    let mut rng = Rng::new(3);
    let mut out = Vec::new();
    fire_attack(&a, Cpx::new(0, 0), Cpx::new(0, 0), &mut rng, &mut out);
    // Only the two ready rings fired, two bullets each.
    assert_eq!(out.len(), 4);
}

#[test]
fn collision_without_players_changes_nothing() {
    let mut w = World::new();
    let mut c = Components::empty();
    c.enemy = true;
    c.bullet = true;
    c.transform = Some(Transform2D::new(Cpx::new(0, 0), Cpx::new(1_000, 1_000), 0));
    c.hitbox = Some(CircleHitbox::new(5_000, Cpx::new(0, 0)));
    w.spawn(c);
    let mut score = ScoreData::new(Difficulty::Normal);
    let mut cues: Vec<Cue> = Vec::new();
    update_collision(&mut w, &mut score, &mut cues);
    assert_eq!(w.len(), 1);
    assert_eq!(score.life, 3);
    assert!(cues.is_empty());
}

#[test]
fn events_fire_strictly_after_their_start() {
    let mut ev = EventManager::new();
    ev.add(1_000, StageCommand::PlayBgm(2));
    // The clock standing exactly on the start does not fire the event.
    let due = ev.update(1_000);
    assert_eq!(due.len(), 0);
    let due = ev.update(1);
    assert_eq!(due.len(), 1);
}

#[test]
fn focus_halo_spins_with_time() {
    let mut w = World::new();
    let mut c = Components::empty();
    c.focusable = Some(danmaku::components::Focusable(1_000, 300_000));
    let id = w.spawn(c);
    rotate_focus(&mut w, 100);
    let f = w.lookup(id).unwrap().focusable.unwrap();
    // 1.0 + 300.0 * 0.1 degrees.
    assert_eq!(f.0, 31_000);
    assert_eq!(f.1, 300_000);
}
