//! Simulation systems: collision, culling, firing, bosses and the frame
//! driver.

use danmaku::attack::{AttackMove, BossMove, BossMoves, BulletSetup, fire_attack};
use danmaku::combat::update_collision;
use danmaku::components::{CircleHitbox, Hitpoint, Sprite, Transform2D};
use danmaku::control::{player_control, wanderable_search, InputState};
use danmaku::cpx::Cpx;
use danmaku::difficulty::Difficulty;
use danmaku::entity::{miko, reimu_a};
use danmaku::frame::{stage_step, GameState, StageState, StepOutcome};
use danmaku::boss::update_boss_attack;
use danmaku::rng::Rng;
use danmaku::score::ScoreData;
use danmaku::stage::{stage1, Dialog, DialogItem, StageCommand};
use danmaku::systems::{delete_offscreen, invulnerable_delay_update, update_movement, Cue};
use danmaku::timer::{Cooldown, Timer};
use danmaku::trig::angle_of;
use danmaku::world::{Components, World};

fn bullet_sprite() -> Sprite {
    Sprite::new("miko_sprite", 0, 3, 32_000, 32_000)
}

fn enemy_bullet_at(x: i64, y: i64, radius: i64) -> Components {
    let mut c = Components::empty();
    c.enemy = true;
    c.bullet = true;
    c.transform = Some(Transform2D::new(Cpx::new(x, y), Cpx::new(1_000, 1_000), 0));
    c.hitbox = Some(CircleHitbox::new(radius, Cpx::new(0, 0)));
    c
}

fn player_bullet_at(x: i64, y: i64, damage: i64) -> Components {
    let mut c = Components::empty();
    c.player = true;
    c.bullet = true;
    c.transform = Some(Transform2D::new(Cpx::new(x, y), Cpx::new(1_000, 1_000), 0));
    c.hitbox = Some(CircleHitbox::new(1_000, Cpx::new(0, 0)));
    c.damage = Some(damage);
    c
}

fn boss_with_phase_hp(hp: i64) -> Components {
    let mut c = Components::empty();
    c.enemy = true;
    c.boss = true;
    c.transform = Some(Transform2D::new(Cpx::new(0, 0), Cpx::new(1_000, 1_000), 0));
    c.hitbox = Some(CircleHitbox::new(10_000, Cpx::new(0, 0)));
    c.hitpoint = Some(Hitpoint::new(1_000_000));
    let mut phases: Vec<BossMove> = Vec::new();
    phases.push(BossMove::NonSpells {
        timeout: Timer::new(600_000, false),
        hp: Hitpoint::new(hp),
        attack: AttackMove::Multiple(Vec::new()),
    });
    c.boss_moves = Some(BossMoves(phases));
    c
}

#[test]
fn circle_collision_touching_and_missing() {
    // Centres 5.0 pixels apart: a 3-4-5 triangle.
    let t1 = Transform2D::new(Cpx::new(0, 0), Cpx::new(1_000, 1_000), 0);
    let t2 = Transform2D::new(Cpx::new(3_000, 4_000), Cpx::new(1_000, 1_000), 0);
    let touching = CircleHitbox::new(2_000, Cpx::new(0, 0));
    let other = CircleHitbox::new(3_000, Cpx::new(0, 0));
    // Just touching: d == r1 + r2.
    assert!(touching.is_intersect(&t1, &t2, &other));
    // A clear miss: the radius sum one unit short of the distance.
    let short = CircleHitbox::new(2_999, Cpx::new(0, 0));
    assert!(!touching.is_intersect(&t1, &t2, &short));
    // Offsets shift the centres.
    let offset = CircleHitbox::new(2_000, Cpx::new(1_000, 0));
    assert!(offset.is_intersect(&t1, &t2, &short));
}

#[test]
fn offscreen_culling_two_state_rule() {
    let mut w = World::new();
    let mut c = Components::empty();
    c.die_offscreen = true;
    c.transform = Some(Transform2D::new(Cpx::new(-100_000, -100_000), Cpx::new(1_000, 1_000), 0));
    let id = w.spawn(c);
    // Outside and never seen inside: the pass must not despawn it.
    delete_offscreen(&mut w);
    assert_eq!(w.len(), 1);
    assert_eq!(w.get(0).c.been_on_screen, None);
    // Inside: it persists and is marked.
    w.entries[0].c.transform = Some(Transform2D::new(Cpx::new(100_000, 100_000),
        Cpx::new(1_000, 1_000), 0));
    delete_offscreen(&mut w);
    assert_eq!(w.len(), 1);
    assert_eq!(w.get(0).c.been_on_screen, Some(true));
    // Back outside after having been seen: now it despawns.
    w.entries[0].c.transform = Some(Transform2D::new(Cpx::new(-100_000, -100_000),
        Cpx::new(1_000, 1_000), 0));
    delete_offscreen(&mut w);
    assert_eq!(w.len(), 0);
    assert!(w.find(id).is_none());
}

#[test]
fn circle_attack_fans_out_four_ways() {
    let speed = 100_000;
    let a = AttackMove::Circle {
        sides: 4,
        speed,
        rotation_per_fire: 2_000,
        rotation: 0,
        cooldown: Cooldown(Timer::new(0, true)),
        setup: BulletSetup(bullet_sprite(), CircleHitbox::new(2_500, Cpx::new(0, 0))),
    };
    let mut rng = Rng::new(7);
    let mut out = Vec::new();
    let evolved = fire_attack(&a, Cpx::new(0, 0), Cpx::new(0, 0), &mut rng, &mut out);
    assert_eq!(out.len(), 4);
    let vels: Vec<(i64, i64)> = out
        .iter()
        .map(|b| (b.movement.velocity.re, b.movement.velocity.im))
        .collect();
    assert_eq!(vels[0], (speed, 0));
    assert_eq!(vels[1], (0, speed));
    assert_eq!(vels[2], (-speed, 0));
    assert_eq!(vels[3], (0, -speed));
    assert_eq!(out[0].transform.rotation, 0);
    assert_eq!(out[1].transform.rotation, 90_000);
    assert_eq!(out[2].transform.rotation, 180_000);
    assert_eq!(out[3].transform.rotation, 270_000);
    // The rotation advanced by the per-fire increment.
    match evolved {
        AttackMove::Circle { rotation, .. } => assert_eq!(rotation, 2_000),
        _ => panic!("the pattern kept its shape"),
    }
}

#[test]
fn cold_circle_attack_holds_fire() {
    let a = AttackMove::Circle {
        sides: 4,
        speed: 100_000,
        rotation_per_fire: 2_000,
        rotation: 5_000,
        cooldown: Cooldown(Timer::new(10_000, true)),
        setup: BulletSetup(bullet_sprite(), CircleHitbox::new(2_500, Cpx::new(0, 0))),
    };
    let mut rng = Rng::new(7);
    let mut out = Vec::new();
    let evolved = fire_attack(&a, Cpx::new(0, 0), Cpx::new(0, 0), &mut rng, &mut out);
    assert_eq!(out.len(), 0);
    match evolved {
        AttackMove::Circle { rotation, .. } => assert_eq!(rotation, 5_000),
        _ => panic!("the pattern kept its shape"),
    }
}

#[test]
fn aimed_attack_fires_at_the_target() {
    let a = AttackMove::AtPlayer {
        num: 1,
        speed: 100_000,
        spread: 0,
        total_shoot: 5,
        cooldown: Cooldown(Timer::new(0, true)),
        setup: BulletSetup(bullet_sprite(), CircleHitbox::new(2_500, Cpx::new(0, 0))),
    };
    let mut rng = Rng::new(7);
    let mut out = Vec::new();
    fire_attack(&a, Cpx::new(0, 0), Cpx::new(50_000, 0), &mut rng, &mut out);
    assert_eq!(out.len(), 1);
    // Straight along the aim direction at full speed.
    assert_eq!(out[0].movement.velocity.re, 100_000);
    assert_eq!(out[0].movement.velocity.im, 0);
    // A spent shot budget keeps the pattern quiet.
    let b = AttackMove::AtPlayer {
        num: 1,
        speed: 100_000,
        spread: 0,
        total_shoot: 0,
        cooldown: Cooldown(Timer::new(0, true)),
        setup: BulletSetup(bullet_sprite(), CircleHitbox::new(2_500, Cpx::new(0, 0))),
    };
    let mut out2 = Vec::new();
    fire_attack(&b, Cpx::new(0, 0), Cpx::new(50_000, 0), &mut rng, &mut out2);
    assert_eq!(out2.len(), 0);
}

#[test]
fn boss_phase_depletes_and_boss_despawns() {
    let mut w = World::new();
    let boss_id = w.spawn(boss_with_phase_hp(100_000));
    w.spawn(player_bullet_at(0, 0, 50_000));
    let mut score = ScoreData::new(Difficulty::Normal);
    let mut cues: Vec<Cue> = Vec::new();
    update_collision(&mut w, &mut score, &mut cues);
    // Half the budget spent: the boss stays, the bullet is gone.
    assert_eq!(w.len(), 1);
    let q = w.lookup(boss_id).unwrap().boss_moves.as_ref().unwrap();
    assert_eq!(q.0.len(), 1);
    assert_eq!(q.0[0].get_cur_hp(), 50_000);
    assert!(!cues.contains(&Cue::PhaseEnd));
    // A hundred cumulative damage on a hundred hit points pops the phase,
    // and popping the last phase removes the boss.
    w.spawn(player_bullet_at(0, 0, 50_000));
    update_collision(&mut w, &mut score, &mut cues);
    assert_eq!(w.len(), 0);
    assert!(w.lookup(boss_id).is_none());
    assert!(cues.contains(&Cue::PhaseEnd));
}

#[test]
fn player_hit_grants_invulnerability_window() {
    let mut w = World::new();
    let pid = reimu_a(&mut w);
    // Two bullets overlapping the player's spawn point.
    w.spawn(enemy_bullet_at(150_000, 400_000, 2_500));
    w.spawn(enemy_bullet_at(150_000, 400_000, 2_500));
    let mut score = ScoreData::new(Difficulty::Normal);
    let mut cues: Vec<Cue> = Vec::new();
    update_collision(&mut w, &mut score, &mut cues);
    // One life lost, the window open, the player back at the spawn point.
    assert_eq!(score.life, 2);
    let p = w.lookup(pid).unwrap();
    assert_eq!(p.invulnerable_delay, Some(2_000));
    let pos = p.transform.as_ref().unwrap().position;
    assert_eq!((pos.re, pos.im), (150_000, 400_000));
    // The second overlapping bullet is still there but the window holds.
    update_collision(&mut w, &mut score, &mut cues);
    assert_eq!(score.life, 2);
    // A later frame inside the window still costs nothing.
    invulnerable_delay_update(&mut w, 1_000);
    assert_eq!(w.lookup(pid).unwrap().invulnerable_delay, Some(1_000));
    update_collision(&mut w, &mut score, &mut cues);
    assert_eq!(score.life, 2);
    // Once the window runs out the next overlap costs a life again.
    invulnerable_delay_update(&mut w, 1_500);
    assert_eq!(w.lookup(pid).unwrap().invulnerable_delay, None);
    update_collision(&mut w, &mut score, &mut cues);
    assert_eq!(score.life, 1);
}

#[test]
fn movement_pass_integrates_every_mover() {
    let mut w = World::new();
    let mut c = Components::empty();
    c.transform = Some(Transform2D::new(Cpx::new(0, 0), Cpx::new(1_000, 1_000), 0));
    c.move_params = Some(danmaku::motion::MoveParams::move_linear(Cpx::new(2_000, -1_000)));
    let id = w.spawn(c);
    update_movement(&mut w, 500);
    let pos = w.lookup(id).unwrap().transform.as_ref().unwrap().position;
    assert_eq!((pos.re, pos.im), (1_000, -500));
}

#[test]
fn boss_pass_fires_a_ready_ring_at_the_player() {
    let mut w = World::new();
    reimu_a(&mut w);
    let mut c = boss_with_phase_hp(100_000);
    let mut ring: Vec<AttackMove> = Vec::new();
    ring.push(AttackMove::Circle {
        sides: 4,
        speed: 100_000,
        rotation_per_fire: 2_000,
        rotation: 0,
        cooldown: Cooldown(Timer::new(0, true)),
        setup: BulletSetup(bullet_sprite(), CircleHitbox::new(2_500, Cpx::new(0, 0))),
    });
    let mut phases: Vec<BossMove> = Vec::new();
    phases.push(BossMove::NonSpells {
        timeout: Timer::new(600_000, false),
        hp: Hitpoint::new(100_000),
        attack: AttackMove::Multiple(ring),
    });
    c.boss_moves = Some(BossMoves(phases));
    let boss_id = w.spawn(c);
    let mut rng = Rng::new(9);
    let mut cues: Vec<Cue> = Vec::new();
    update_boss_attack(&mut w, &mut rng, 8, &mut cues);
    // Four ring bullets joined the world as enemy bullets.
    assert_eq!(w.len(), 6);
    assert!(cues.contains(&Cue::Shot));
    let last = w.get(5);
    assert!(last.c.enemy && last.c.bullet && last.c.die_offscreen);
    // The stored pattern advanced its rotation.
    let q = w.lookup(boss_id).unwrap().boss_moves.as_ref().unwrap();
    match &q.0[0] {
        BossMove::NonSpells { attack: AttackMove::Multiple(ms), .. } => match &ms[0] {
            AttackMove::Circle { rotation, .. } => assert_eq!(*rotation, 2_000),
            _ => panic!("ring kept its shape"),
        },
        _ => panic!("phase kept its shape"),
    }
}

#[test]
fn player_control_sets_acceleration_and_fires_when_ready() {
    let mut w = World::new();
    let pid = reimu_a(&mut w);
    let mut input = InputState::idle();
    input.right = true;
    let mut cues: Vec<Cue> = Vec::new();
    player_control(&mut w, &input, 8, &mut cues);
    let mp = w.lookup(pid).unwrap().move_params.as_ref().unwrap().clone();
    assert_eq!((mp.acceleration.re, mp.acceleration.im), (5_000_000, 0));
    // Focusing slows the thrust to exactly five thirteenths.
    input.focus = true;
    player_control(&mut w, &input, 8, &mut cues);
    let mp = w.lookup(pid).unwrap().move_params.as_ref().unwrap().clone();
    assert_eq!(mp.acceleration.re, 5_000_000 * 5 / 13);
    // Holding attack for the whole cooldown releases the basic shot.
    input.focus = false;
    input.attack = true;
    player_control(&mut w, &input, 1_000, &mut cues);
    assert_eq!(w.len(), 2);
    let shot = w.get(1);
    assert!(shot.c.player && shot.c.bullet && shot.c.die_offscreen);
    assert_eq!(shot.c.damage, Some(100_000));
    assert_eq!(shot.c.move_params.as_ref().unwrap().velocity.im, -5_000_000);
}

#[test]
fn dialog_walks_its_lines() {
    let mut lines: Vec<DialogItem> = Vec::new();
    lines.push(DialogItem::Player("first"));
    lines.push(DialogItem::Opponent("second"));
    let mut d = Dialog::new("reimu_char", "miko_char", lines);
    assert!(!d.done());
    d.next();
    assert!(!d.done());
    d.next();
    assert!(d.done());
    d.next();
    assert!(d.done());
}

#[test]
fn stage_script_fires_each_event_once() {
    let mut ev = stage1();
    let due = ev.update(500);
    assert_eq!(due.len(), 1);
    assert!(matches!(due[0], danmaku::stage::StageCommand::SpawnPlayer));
    let due = ev.update(600);
    assert_eq!(due.len(), 3);
    // Nothing fires twice.
    let due = ev.update(10_000);
    assert_eq!(due.len(), 0);
}

#[test]
fn stage_frames_spawn_run_and_pause() {
    let mut stage = StageState::new(stage1());
    let mut score = ScoreData::new(Difficulty::Normal);
    let mut rng = Rng::new(1);
    let mut cues: Vec<Cue> = Vec::new();
    let idle = InputState::idle();
    let r = stage_step(&mut stage, &mut score, &idle, 500, &mut rng, &mut cues);
    assert_eq!(r, StepOutcome::Continue);
    assert_eq!(stage.world.len(), 1);
    // The boss arrives with its theme and the opening dialog.
    stage_step(&mut stage, &mut score, &idle, 600, &mut rng, &mut cues);
    assert_eq!(stage.game_state, GameState::Dialog);
    assert!(cues.iter().any(|c| matches!(c, Cue::Bgm(8))));
    assert!(stage.world.len() >= 2);
    // Reading through the dialog resumes the stage.
    let mut talk = InputState::idle();
    talk.attack_pressed = true;
    stage_step(&mut stage, &mut score, &talk, 8, &mut rng, &mut cues);
    assert_eq!(stage.game_state, GameState::Dialog);
    stage_step(&mut stage, &mut score, &talk, 8, &mut rng, &mut cues);
    assert_eq!(stage.game_state, GameState::Resumed);
    // Escape pauses; restart through the menu resets the tally.
    let mut esc = InputState::idle();
    esc.escape_pressed = true;
    stage_step(&mut stage, &mut score, &esc, 8, &mut rng, &mut cues);
    assert_eq!(stage.game_state, GameState::Paused);
    let mut down = InputState::idle();
    down.down_pressed = true;
    stage_step(&mut stage, &mut score, &down, 8, &mut rng, &mut cues);
    assert_eq!(stage.menu_index, 1);
    score.life = 1;
    let mut accept = InputState::idle();
    accept.accept_pressed = true;
    let r = stage_step(&mut stage, &mut score, &accept, 8, &mut rng, &mut cues);
    assert_eq!(r, StepOutcome::Restart);
    assert_eq!(score.life, 3);
}

#[test]
fn difficulty_and_defaults() {
    let d = Difficulty::Hard;
    assert_eq!(d.difficulty_value(1, 2, 3, 4), 3);
    assert_eq!(d.as_str(), "Hard");
    assert_eq!(Difficulty::Normal.difficulty_value("e", "n", "h", "l"), "n");
    let s = ScoreData::default();
    assert_eq!(s.life, 3);
    assert_eq!(s.power, 1_000);
    assert!(matches!(danmaku::window::Resolution::default(),
        danmaku::window::Resolution::Resolution640x480));
    assert!(matches!(danmaku::window::WindowMode::default(),
        danmaku::window::WindowMode::Windowed));
}

#[test]
fn wandering_boss_steers_and_retargets() {
    let mut w = World::new();
    let boss_id = miko(&mut w);
    let mut rng = Rng::new(5);
    // Push the patrol past its wait so it draws a target.
    for _ in 0..6 {
        danmaku::control::wanderable_search(&mut w, &mut rng, 1_000);
    }
    let wd = w.lookup(boss_id).unwrap().wanderable.as_ref().unwrap().clone();
    let tgt = wd.target_pos.expect("a patrol target was drawn");
    // The drawn target is inside the wander rectangle (or the fallback).
    let inside_x = 10_000 <= tgt.re && tgt.re <= 10_000 + 364_000;
    let inside_y = 10_000 <= tgt.im && tgt.im <= 10_000 + 200_000;
    let fallback = (tgt.re, tgt.im) == (150_000, 50_000);
    assert!((inside_x && inside_y) || fallback);
    // With a target set, the steering pass homes toward it.
    danmaku::control::wanderable_search(&mut w, &mut rng, 8);
    let mp = w.lookup(boss_id).unwrap().move_params.as_ref().unwrap().clone();
    assert_eq!(mp.attraction_point, tgt);
}

#[test]
fn hitpoint_death_boundary_is_asymmetric() {
    // `damage` reports lethal already at exactly zero, while `is_dead`
    // requires strictly below zero; the asymmetry at zero is deliberate.
    let mut h = Hitpoint::new(50_000);
    assert!(h.damage(50_000));
    assert_eq!(h.hp, 0);
    assert!(!h.is_dead());
    assert!(h.damage(1));
    assert!(h.is_dead());
    // An invulnerable record shrugs everything off.
    let mut inv = Hitpoint::invulnerable();
    assert!(!inv.damage(1_000_000));
    assert!(!inv.is_dead());
}

#[test]
fn boss_phase_reports_its_state() {
    let mut phase = BossMove::NonSpells {
        timeout: Timer::new(120_000, false),
        hp: Hitpoint::new(100_000),
        attack: AttackMove::Multiple(Vec::new()),
    };
    assert_eq!(phase.get_cur_hp(), 100_000);
    assert_eq!(phase.get_max_hp(), 100_000);
    assert_eq!(phase.get_time(), 120_000);
    assert!(!phase.is_timeout());
    phase.damage(30_000);
    assert_eq!(phase.get_cur_hp(), 70_000);
    assert!(!phase.is_dead());
    let ticked = phase.update_cooldown(120_000);
    assert!(ticked.is_timeout());
    assert_eq!(ticked.get_time(), 0);
}

#[test]
fn aimed_bullet_rotation_is_the_flight_angle() {
    // Angles run clockwise on screen: right is 0, down is a quarter turn.
    let down = AttackMove::AtPlayer {
        num: 1,
        speed: 100_000,
        spread: 0,
        total_shoot: 5,
        cooldown: Cooldown(Timer::new(0, true)),
        setup: BulletSetup(bullet_sprite(), CircleHitbox::new(2_500, Cpx::new(0, 0))),
    };
    let mut rng = Rng::new(7);
    let mut out = Vec::new();
    fire_attack(&down, Cpx::new(0, 0), Cpx::new(0, 50_000), &mut rng, &mut out);
    assert_eq!(out.len(), 1);
    assert_eq!(out[0].movement.velocity.re, 0);
    assert_eq!(out[0].movement.velocity.im, 100_000);
    assert_eq!(out[0].transform.rotation, 90_000);
    let right = AttackMove::AtPlayer {
        num: 1,
        speed: 100_000,
        spread: 0,
        total_shoot: 5,
        cooldown: Cooldown(Timer::new(0, true)),
        setup: BulletSetup(bullet_sprite(), CircleHitbox::new(2_500, Cpx::new(0, 0))),
    };
    let mut out2 = Vec::new();
    fire_attack(&right, Cpx::new(0, 0), Cpx::new(50_000, 0), &mut rng, &mut out2);
    assert_eq!(out2[0].transform.rotation, 0);
    let up = AttackMove::AtPlayer {
        num: 1,
        speed: 100_000,
        spread: 0,
        total_shoot: 5,
        cooldown: Cooldown(Timer::new(0, true)),
        setup: BulletSetup(bullet_sprite(), CircleHitbox::new(2_500, Cpx::new(0, 0))),
    };
    let mut out3 = Vec::new();
    fire_attack(&up, Cpx::new(0, 0), Cpx::new(0, -50_000), &mut rng, &mut out3);
    assert_eq!(out3[0].transform.rotation, 270_000);
}

#[test]
fn flight_angle_covers_all_quadrants() {
    assert_eq!(angle_of(&Cpx::new(1_000, 0)), 0);
    assert_eq!(angle_of(&Cpx::new(0, 1_000)), 90_000);
    assert_eq!(angle_of(&Cpx::new(-1_000, 0)), 180_000);
    assert_eq!(angle_of(&Cpx::new(0, -1_000)), 270_000);
    assert_eq!(angle_of(&Cpx::new(0, 0)), 0);
    // An up-left velocity lands in the third quadrant of the turn.
    let a = angle_of(&Cpx::new(-1_000, -1_000));
    assert!(180_000 < a && a < 270_000);
}

#[test]
fn stage_script_pins_the_opening_events() {
    let mut script = stage1();
    // Nothing has fired at time zero.
    assert_eq!(script.lists.len(), 4);
    // One frame later the player spawn is due, alone.
    let due = script.update(500);
    assert_eq!(due.len(), 1);
    assert!(matches!(due[0], StageCommand::SpawnPlayer));
    // Crossing the one-second mark hands out the boss, the track and the
    // dialog, in script order, each exactly once.
    let due2 = script.update(600);
    assert_eq!(due2.len(), 3);
    assert!(matches!(due2[0], StageCommand::SpawnBoss));
    assert!(matches!(due2[1], StageCommand::PlayBgm(8)));
    assert!(matches!(due2[2], StageCommand::ShowDialog(_)));
    let due3 = script.update(10_000);
    assert_eq!(due3.len(), 0);
}

#[test]
fn spell_press_always_fires_a_shot() {
    let mut w = World::new();
    reimu_a(&mut w);
    let before = w.len();
    let mut input = InputState::idle();
    input.spell_pressed = true;
    let mut cues: Vec<Cue> = Vec::new();
    player_control(&mut w, &input, 16, &mut cues);
    assert_eq!(w.len(), before + 1);
    let shot = w.get(before);
    assert!(shot.c.player && shot.c.bullet && shot.c.die_offscreen);
    assert_eq!(shot.c.damage, Some(100_000));
    assert_eq!(cues, vec![Cue::Shot]);
}

#[test]
fn boss_hit_damages_hitpoint_and_phase_together() {
    let mut w = World::new();
    let boss_id = w.spawn(boss_with_phase_hp(100_000));
    w.spawn(player_bullet_at(0, 0, 30_000));
    let mut score = ScoreData::new(Difficulty::Normal);
    let mut cues: Vec<Cue> = Vec::new();
    update_collision(&mut w, &mut score, &mut cues);
    // Dual bookkeeping: the boss's own hit points and the front phase's
    // budget each took the same damage.
    let c = w.lookup(boss_id).unwrap();
    assert_eq!(c.hitpoint.as_ref().unwrap().hp, 970_000);
    let q = c.boss_moves.as_ref().unwrap();
    assert_eq!(q.0[0].get_cur_hp(), 70_000);
    assert!(cues.is_empty());
}

#[test]
fn boss_aims_at_a_player_without_a_hitbox() {
    let mut w = World::new();
    let mut p = Components::empty();
    p.player = true;
    p.controllable = true;
    p.transform = Some(Transform2D::new(Cpx::new(100_000, 0), Cpx::new(1_000, 1_000), 0));
    w.spawn(p);
    let mut c = boss_with_phase_hp(100_000);
    let mut aimed: Vec<AttackMove> = Vec::new();
    aimed.push(AttackMove::AtPlayer {
        num: 1,
        speed: 100_000,
        spread: 0,
        total_shoot: 5,
        cooldown: Cooldown(Timer::new(0, true)),
        setup: BulletSetup(bullet_sprite(), CircleHitbox::new(2_500, Cpx::new(0, 0))),
    });
    let mut phases: Vec<BossMove> = Vec::new();
    phases.push(BossMove::NonSpells {
        timeout: Timer::new(600_000, false),
        hp: Hitpoint::new(100_000),
        attack: AttackMove::Multiple(aimed),
    });
    c.boss_moves = Some(BossMoves(phases));
    w.spawn(c);
    let mut rng = Rng::new(9);
    let mut cues: Vec<Cue> = Vec::new();
    update_boss_attack(&mut w, &mut rng, 8, &mut cues);
    // The hitbox-less player is still the aim target: one bullet flies
    // from the boss straight toward it, rightward along the screen.
    assert_eq!(w.len(), 3);
    let b = w.get(2);
    assert!(b.c.enemy && b.c.bullet);
    let v = b.c.move_params.as_ref().unwrap().velocity;
    assert_eq!(v, Cpx::new(100_000, 0));
}

fn wanderer_due_for_retarget() -> Components {
    let mut c = Components::empty();
    c.enemy = true;
    c.transform = Some(Transform2D::new(Cpx::new(50_000, 50_000), Cpx::new(1_000, 1_000), 0));
    c.move_params = Some(danmaku::motion::MoveParams::move_linear(Cpx::new(0, 0)));
    let mut wd = danmaku::components::Wanderable::new(
        danmaku::components::Rect::new(10_000, 10_000, 364_000, 200_000),
        Cpx::new(50_000, 50_000),
        400_000,
        1_000,
    );
    wd.elapsed = 2_000;
    c.wanderable = Some(wd);
    c
}

#[test]
fn wander_retarget_is_a_function_of_the_seed() {
    let mut w1 = World::new();
    w1.spawn(wanderer_due_for_retarget());
    let mut w2 = World::new();
    w2.spawn(wanderer_due_for_retarget());
    let mut r1 = Rng::new(77);
    let mut r2 = Rng::new(77);
    wanderable_search(&mut w1, &mut r1, 16);
    wanderable_search(&mut w2, &mut r2, 16);
    let t1 = w1.get(0).c.wanderable.as_ref().unwrap().target_pos.unwrap();
    let t2 = w2.get(0).c.wanderable.as_ref().unwrap().target_pos.unwrap();
    // The drawn target is a pure function of the generator state, and the
    // stream advances by exactly the eight draws of the four attempts.
    assert_eq!(t1, t2);
    assert_eq!(r1, r2);
    // With this rectangle every draw lands inside, so the pick is the
    // fourth attempt's point: the seventh and eighth Lehmer samples.
    assert_eq!(t1, Cpx::new(242_000, 125_000));
    // A different seed steers elsewhere (with these values it does).
    let mut w3 = World::new();
    w3.spawn(wanderer_due_for_retarget());
    let mut r3 = Rng::new(78);
    wanderable_search(&mut w3, &mut r3, 16);
    let t3 = w3.get(0).c.wanderable.as_ref().unwrap().target_pos.unwrap();
    assert_ne!(t1, t3);
}
