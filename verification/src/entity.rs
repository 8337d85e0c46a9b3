//! Entity factories: the component bundles the stage content spawns.

use vstd::prelude::*;
use crate::attack::{AttackMove, BossMove, BossMoves, BulletSetup, SpawnBullet};
use crate::components::{CircleHitbox, Focusable, Hitpoint, Sprite, Rect, Transform2D, Wanderable};
use crate::cpx::Cpx;
use crate::motion::MoveParams;
use crate::player::{Attack, BasicPlayerAttack, PlayerAttack, PlayerSpells};
use crate::timer::{Cooldown, Timer};
use crate::world::{world_wf, Components, Entry, World};

verus! {

/// The bundle an enemy bullet entity starts from.
pub open spec fn enemy_bullet_comps(b: SpawnBullet) -> Components {
    Components {
        player: false,
        controllable: false,
        enemy: true,
        boss: false,
        bullet: true,
        die_offscreen: true,
        been_on_screen: None,
        transform: Some(b.transform),
        move_params: Some(b.movement),
        sprite: Some(b.sprite),
        hitbox: Some(b.hitbox),
        hitpoint: None,
        focusable: None,
        wanderable: None,
        boss_moves: None,
        player_attack: None,
        damage: None,
        invulnerable_delay: None,
    }
}

/// Spawn an enemy bullet: an enemy-side projectile that dies off screen.
pub fn create_enemy_bullet(
    world: &mut World,
    transform: Transform2D,
    sprite: Sprite,
    movement: MoveParams,
    hitbox: CircleHitbox,
) -> (id: u64)
    requires
        world_wf(*old(world)),
        crate::components::transform_in_fx(transform),
        crate::motion::mp_in_fx(movement),
        crate::components::hitbox_in_fx(hitbox),
        old(world).next_id < 0xffff_ffff_ffff_ffff,
    ensures
        id == old(world).next_id,
        final(world).entries@ == old(world).entries@.push(
            Entry {
                id,
                c: enemy_bullet_comps(
                    SpawnBullet { transform, sprite, movement, hitbox },
                ),
            },
        ),
        final(world).next_id == old(world).next_id + 1,
        world_wf(*final(world)),
{
    let mut c = Components::empty();
    c.enemy = true;
    c.bullet = true;
    c.die_offscreen = true;
    c.transform = Some(transform);
    c.move_params = Some(movement);
    c.sprite = Some(sprite);
    c.hitbox = Some(hitbox);
    world.spawn(c)
}

/// The component bundle the playable character spawns with.
pub open spec fn reimu_comps_ok(c: Components) -> bool {
    &&& c.player && c.controllable && !c.enemy && !c.bullet && !c.boss && !c.die_offscreen
    &&& c.transform == Some(Transform2D {
        position: Cpx { re: 150_000, im: 400_000 },
        scale: Cpx { re: 1000, im: 1000 },
        rotation: 0,
    })
    &&& c.move_params == Some(crate::motion::move_dampen_spec(Cpx { re: 0, im: 0 }, 850))
    &&& c.hitbox == Some(CircleHitbox { radius: 4_500, offset: Cpx { re: 0, im: 0 } })
    &&& c.focusable == Some(Focusable(0, 300_000))
    &&& c.sprite == Some(Sprite {
        name: "reimu_sprite",
        src: Rect { x: 0, y: 0, w: 32_000, h: 32_000 },
    })
    &&& c.player_attack == Some(PlayerAttack {
        basic: Attack(
            Cooldown(Timer { elapsed: 0, period: 1_000, repeating: true }),
            BasicPlayerAttack::ReimuA,
        ),
        spells: Attack(
            Cooldown(Timer { elapsed: 0, period: 1_000, repeating: true }),
            PlayerSpells::ReimuA,
        ),
    })
    &&& c.been_on_screen is None && c.hitpoint is None && c.wanderable is None
    &&& c.boss_moves is None && c.damage is None && c.invulnerable_delay is None
}

/// The store after the playable character was spawned: one entry appended
/// with the pinned bundle, everything else untouched.
pub open spec fn reimu_spawn_rel(w0: World, w1: World) -> bool {
    &&& world_wf(w1)
    &&& w1.next_id == w0.next_id + 1
    &&& w1.entries@.len() == w0.entries@.len() + 1
    &&& w1.entries@.subrange(0, w0.entries@.len() as int) =~= w0.entries@
    &&& w1.entries@[w0.entries@.len() as int].id == w0.next_id
    &&& reimu_comps_ok(w1.entries@[w0.entries@.len() as int].c)
}

/// Spawn the playable character: a controllable player with dampened
/// inertia, a focus halo, a small hitbox and the two attack slots, each on
/// a one-second cooldown.
pub fn reimu_a(world: &mut World) -> (id: u64)
    requires
        world_wf(*old(world)),
        old(world).next_id < 0xffff_ffff_ffff_ffff,
    ensures
        id == old(world).next_id,
        final(world).next_id == old(world).next_id + 1,
        final(world).entries@.len() == old(world).entries@.len() + 1,
        final(world).entries@.subrange(0, old(world).entries@.len() as int)
            =~= old(world).entries@,
        world_wf(*final(world)),
        final(world).entries@[old(world).entries@.len() as int].id == id,
        reimu_comps_ok(final(world).entries@[old(world).entries@.len() as int].c),
{
    let mut c = Components::empty();
    c.player = true;
    c.controllable = true;
    c.sprite = Some(Sprite::new("reimu_sprite", 0, 0, 32_000, 32_000));
    c.transform = Some(Transform2D::new(Cpx::new(150_000, 400_000), Cpx::new(1000, 1000), 0));
    c.move_params = Some(MoveParams::move_dampen(Cpx::zero(), 850));
    c.focusable = Some(Focusable(0, 300_000));
    c.hitbox = Some(CircleHitbox::new(4_500, Cpx::zero()));
    c.player_attack = Some(PlayerAttack::new(
        Attack::new(Cooldown::new(1_000), BasicPlayerAttack::ReimuA),
        Attack::new(Cooldown::new(1_000), PlayerSpells::ReimuA),
    ));
    world.spawn(c)
}

/// The ring pattern `miko_ring` builds, as a value: a spiral volley whose
/// bullets wear the boss's sheet cell at row `sheet_y`.
pub open spec fn miko_ring_spec(
    sides: u16,
    speed: i64,
    rotation: i64,
    period: i64,
    sheet_y: i64,
) -> AttackMove {
    AttackMove::Circle {
        sides,
        speed,
        rotation_per_fire: 2_000,
        rotation,
        cooldown: Cooldown(Timer { elapsed: 0, period, repeating: true }),
        setup: BulletSetup(
            Sprite {
                name: "miko_sprite",
                src: Rect { x: 0, y: (sheet_y * 32_000) as i64, w: 32_000, h: 32_000 },
            },
            CircleHitbox { radius: 2_500, offset: Cpx { re: 0, im: 0 } },
        ),
    }
}

/// One ring pattern of the boss's choreography.
fn miko_ring(sides: u16, speed: i64, rotation: i64, period: i64, sheet_y: i64) -> (r: AttackMove)
    requires
        0 <= speed <= 1_000_000,
        0 <= rotation < crate::trig::DEG_TURN,
        0 <= period <= 100_000,
        0 <= sheet_y <= 10,
    ensures
        crate::attack::attack_in_fx(r),
        r == miko_ring_spec(sides, speed, rotation, period, sheet_y),
{
    AttackMove::Circle {
        sides,
        speed,
        rotation_per_fire: 2_000,
        rotation,
        cooldown: Cooldown(Timer::new(period, true)),
        setup: BulletSetup(
            Sprite::new("miko_sprite", 0, sheet_y, 32_000, 32_000),
            CircleHitbox::new(2_500, Cpx::zero()),
        ),
    }
}

/// The attack tree of the boss's opening phase: three spiral rings and a
/// twelve-bullet aimed fan.
pub open spec fn miko_nonspell_attack(a: AttackMove) -> bool {
    a matches AttackMove::Multiple(ms) && ms@.len() == 4
        && ms@[0] == miko_ring_spec(32, 140_000, 12_000, 1_900, 3)
        && ms@[1] == miko_ring_spec(24, 120_000, 8_000, 1_000, 3)
        && ms@[2] == miko_ring_spec(24, 150_000, 8_000, 2_000, 3)
        && ms@[3] == (AttackMove::AtPlayer {
            num: 12,
            speed: 145_000,
            spread: 12_000,
            total_shoot: 12,
            cooldown: Cooldown(Timer { elapsed: 0, period: 2_000, repeating: true }),
            setup: BulletSetup(
                Sprite {
                    name: "miko_sprite",
                    src: Rect { x: 0, y: 128_000, w: 32_000, h: 32_000 },
                },
                CircleHitbox { radius: 2_500, offset: Cpx { re: 0, im: 0 } },
            ),
        })
}

/// The attack tree of the boss's spell card: four faster rings and a wider
/// twenty-four-bullet aimed fan.
pub open spec fn miko_spell_attack(a: AttackMove) -> bool {
    a matches AttackMove::Multiple(ms) && ms@.len() == 5
        && ms@[0] == miko_ring_spec(32, 240_000, 12_000, 1_900, 3)
        && ms@[1] == miko_ring_spec(24, 220_000, 8_000, 1_000, 3)
        && ms@[2] == miko_ring_spec(24, 250_000, 8_000, 2_000, 3)
        && ms@[3] == miko_ring_spec(12, 240_000, 3_000, 2_500, 4)
        && ms@[4] == (AttackMove::AtPlayer {
            num: 24,
            speed: 250_000,
            spread: 20_000,
            total_shoot: 12,
            cooldown: Cooldown(Timer { elapsed: 0, period: 5_000, repeating: true }),
            setup: BulletSetup(
                Sprite {
                    name: "reimu_sprite",
                    src: Rect { x: 0, y: 192_000, w: 64_000, h: 64_000 },
                },
                CircleHitbox { radius: 10_000, offset: Cpx { re: 0, im: 0 } },
            ),
        })
}

/// The boss's two queued phases: the plain pattern with a two-minute
/// timeout and a twenty-five-thousand-point budget, then the named spell
/// card with a four-minute timeout and twice the budget.
pub open spec fn miko_phases_ok(q: Seq<BossMove>) -> bool {
    &&& q.len() == 2
    &&& (q[0] matches BossMove::NonSpells { timeout, hp, attack }
        && timeout == (Timer { elapsed: 0, period: 120_000, repeating: false })
        && hp == (Hitpoint { hp: 25_000_000, max_hp: 25_000_000, invulnerable: false })
        && miko_nonspell_attack(attack))
    &&& (q[1] matches BossMove::Spells { name, timeout, hp, attack }
        && name == "Hermit Sign 'Taoist of the Land of the Rising Sun'"
        && timeout == (Timer { elapsed: 0, period: 240_000, repeating: false })
        && hp == (Hitpoint { hp: 50_000_000, max_hp: 50_000_000, invulnerable: false })
        && miko_spell_attack(attack))
}

/// The component bundle the boss spawns with.
pub open spec fn miko_comps_ok(c: Components) -> bool {
    &&& c.enemy && c.boss && !c.player && !c.controllable && !c.bullet && !c.die_offscreen
    &&& c.transform == Some(Transform2D {
        position: Cpx { re: 150_000, im: 50_000 },
        scale: Cpx { re: 1000, im: 1000 },
        rotation: 0,
    })
    &&& c.move_params == Some(crate::motion::move_linear_spec(Cpx { re: 0, im: 0 }))
    &&& c.hitbox == Some(CircleHitbox { radius: 12_000, offset: Cpx { re: 0, im: 0 } })
    &&& c.wanderable == Some(Wanderable {
        wander_size: Rect { x: 10_000, y: 10_000, w: 364_000, h: 200_000 },
        last_pos: Cpx { re: 150_000, im: 50_000 },
        target_pos: None,
        elapsed: 0,
        wait: 4_000,
        speed: 400_000,
    })
    &&& c.sprite == Some(Sprite {
        name: "miko_sprite",
        src: Rect { x: 0, y: 0, w: 32_000, h: 64_000 },
    })
    &&& c.boss_moves is Some && miko_phases_ok((c.boss_moves->0).0@)
    &&& c.been_on_screen is None && c.hitpoint is None && c.focusable is None
    &&& c.player_attack is None && c.damage is None && c.invulnerable_delay is None
}

/// The store after the boss was spawned: one entry appended with the
/// pinned bundle, everything else untouched.
pub open spec fn miko_spawn_rel(w0: World, w1: World) -> bool {
    &&& world_wf(w1)
    &&& w1.next_id == w0.next_id + 1
    &&& w1.entries@.len() == w0.entries@.len() + 1
    &&& w1.entries@.subrange(0, w0.entries@.len() as int) =~= w0.entries@
    &&& w1.entries@[w0.entries@.len() as int].id == w0.next_id
    &&& miko_comps_ok(w1.entries@[w0.entries@.len() as int].c)
}

/// Spawn the boss: a wandering enemy running two queued phases, a plain
/// pattern then a named spell card.
pub fn miko(world: &mut World) -> (id: u64)
    requires
        world_wf(*old(world)),
        old(world).next_id < 0xffff_ffff_ffff_ffff,
    ensures
        id == old(world).next_id,
        final(world).next_id == old(world).next_id + 1,
        final(world).entries@.len() == old(world).entries@.len() + 1,
        final(world).entries@.subrange(0, old(world).entries@.len() as int)
            =~= old(world).entries@,
        world_wf(*final(world)),
        final(world).entries@[old(world).entries@.len() as int].id == id,
        miko_comps_ok(final(world).entries@[old(world).entries@.len() as int].c),
{
    let mut c = Components::empty();
    c.enemy = true;
    c.boss = true;
    c.sprite = Some(Sprite::new("miko_sprite", 0, 0, 32_000, 64_000));
    c.transform = Some(Transform2D::new(Cpx::new(150_000, 50_000), Cpx::new(1000, 1000), 0));
    c.wanderable = Some(Wanderable::new(
        Rect::new(10_000, 10_000, 364_000, 200_000),
        Cpx::new(150_000, 50_000),
        400_000,
        4_000,
    ));
    c.move_params = Some(MoveParams::move_linear(Cpx::zero()));
    c.hitbox = Some(CircleHitbox::new(12_000, Cpx::zero()));

    let mut nonspell_moves: Vec<AttackMove> = Vec::new();
    nonspell_moves.push(miko_ring(32, 140_000, 12_000, 1_900, 3));
    nonspell_moves.push(miko_ring(24, 120_000, 8_000, 1_000, 3));
    nonspell_moves.push(miko_ring(24, 150_000, 8_000, 2_000, 3));
    nonspell_moves.push(AttackMove::AtPlayer {
        num: 12,
        speed: 145_000,
        spread: 12_000,
        total_shoot: 12,
        cooldown: Cooldown(Timer::new(2_000, true)),
        setup: BulletSetup(
            Sprite::new("miko_sprite", 0, 4, 32_000, 32_000),
            CircleHitbox::new(2_500, Cpx::zero()),
        ),
    });

    let mut spell_moves: Vec<AttackMove> = Vec::new();
    spell_moves.push(miko_ring(32, 240_000, 12_000, 1_900, 3));
    spell_moves.push(miko_ring(24, 220_000, 8_000, 1_000, 3));
    spell_moves.push(miko_ring(24, 250_000, 8_000, 2_000, 3));
    spell_moves.push(miko_ring(12, 240_000, 3_000, 2_500, 4));
    spell_moves.push(AttackMove::AtPlayer {
        num: 24,
        speed: 250_000,
        spread: 20_000,
        total_shoot: 12,
        cooldown: Cooldown(Timer::new(5_000, true)),
        setup: BulletSetup(
            Sprite::new("reimu_sprite", 0, 6, 64_000, 64_000),
            CircleHitbox::new(10_000, Cpx::zero()),
        ),
    });

    proof {
        assert forall|i: int| 0 <= i < nonspell_moves@.len() implies crate::attack::attack_in_fx(
            #[trigger] nonspell_moves@[i]) by {
            assert(nonspell_moves@.len() == 4);
        };
        assert forall|i: int| 0 <= i < spell_moves@.len() implies crate::attack::attack_in_fx(
            #[trigger] spell_moves@[i]) by {
            assert(spell_moves@.len() == 5);
        };
    }
    let mut phases: Vec<BossMove> = Vec::new();
    phases.push(BossMove::NonSpells {
        timeout: Timer::new(120_000, false),
        hp: Hitpoint::new(25_000_000),
        attack: AttackMove::Multiple(nonspell_moves),
    });
    phases.push(BossMove::Spells {
        name: "Hermit Sign 'Taoist of the Land of the Rising Sun'",
        timeout: Timer::new(240_000, false),
        hp: Hitpoint::new(50_000_000),
        attack: AttackMove::Multiple(spell_moves),
    });
    proof {
        assert forall|i: int| 0 <= i < phases@.len() implies crate::attack::bossmove_in_fx(
            #[trigger] phases@[i]) by {
            assert(phases@.len() == 2);
        };
        assert(miko_phases_ok(phases@));
    }
    c.boss_moves = Some(BossMoves(phases));
    proof {
        assert(miko_comps_ok(c));
    }
    world.spawn(c)
}

} // verus!
