//! The frame driver: one simulation step per rendered frame.
//!
//! While the stage is resumed, the passes run in a fixed order every frame:
//! stage events, player control, movement integration, focus rotation,
//! off-screen culling, wander steering, boss attacks, collision resolution
//! and invulnerability decay. The pause menu and dialog states step their
//! own small machines instead and leave the world untouched.

use vstd::prelude::*;
use crate::boss::{boss_entry_rel, boss_pass_out, first_aim_player_at, is_aim_player,
    is_attacking_boss, spawned_bullet_entry, update_boss_attack};
use crate::combat::{boss_pass_rel, player_gets_hit,
    player_pass_rel, update_collision};
use crate::control::{controlled_entry, player_control, player_shot_comps, shot_positions,
    wander_rel, wanderable_search, InputState};
use crate::difficulty::Difficulty;
use crate::entity::{miko, miko_spawn_rel, reimu_a, reimu_spawn_rel};
use crate::fx::{fx_add_spec, in_fx};
use crate::rng::{rng_wf, Rng};
use crate::score::ScoreData;
use crate::stage::{due_commands, event_after, events_in_fx, Dialog, EventManager, StageCommand};
use crate::systems::{cull_seq, delete_offscreen, focused_entry, invuln_entry,
    invulnerable_delay_update, moved_entry, rotate_focus, update_movement, Cue};
use crate::world::{world_wf, Entry, World};

verus! {

/// What the stage is doing this frame.
#[derive(Clone, Copy, Debug, PartialEq, Eq, Structural)]
pub enum GameState {
    /// The pause menu is open.
    Paused,
    /// A dialog exchange is being read.
    Dialog,
    /// The simulation is running.
    Resumed,
}

/// Number of pause-menu choices: continue, restart, exit.
pub const MENU_CHOICES: usize = 3;

/// What the host should do after a frame.
#[derive(Clone, Copy, Debug, PartialEq, Eq, Structural)]
pub enum StepOutcome {
    /// Keep running this stage.
    Continue,
    /// Restart the stage with a fresh score.
    Restart,
    /// Leave to the main menu.
    ExitToMenu,
}

/// Everything one running stage owns.
#[derive(Debug)]
pub struct StageState {
    pub world: World,
    pub event: EventManager,
    pub dialog: Option<Dialog>,
    pub game_state: GameState,
    pub menu_index: usize,
}

/// The stage's pieces are well formed.
pub open spec fn stage_wf(s: StageState) -> bool {
    world_wf(s.world) && events_in_fx(s.event) && s.menu_index < MENU_CHOICES
}

impl StageState {
    /// A fresh stage around the given script.
    pub fn new(event: EventManager) -> (r: StageState)
        requires
            events_in_fx(event),
        ensures
            stage_wf(r),
            r.game_state is Resumed,
            r.menu_index == 0,
            r.world.entries@.len() == 0,
            r.event == event,
            r.dialog is None,
    {
        StageState {
            world: World::new(),
            event,
            dialog: None,
            game_state: GameState::Resumed,
            menu_index: 0,
        }
    }
}

/// Step the pause menu: newly pressed up and down move the selection with a
/// cue; accept or attack takes the choice — continue resumes while a life
/// is left, restart resets the tally, exit leaves to the menu.
fn step_paused(stage: &mut StageState, score: &mut ScoreData, input: &InputState, cues: &mut Vec<
    Cue>) -> (r: StepOutcome)
    requires
        stage_wf(*old(stage)),
    ensures
        stage_wf(*final(stage)),
        final(stage).world == old(stage).world,
        final(stage).event == old(stage).event,
        final(stage).dialog == old(stage).dialog,
        input.down_pressed ==> final(stage).menu_index as int == (old(stage).menu_index
            + 1) % (MENU_CHOICES as int),
        !input.down_pressed && input.up_pressed ==> final(stage).menu_index
            == if old(stage).menu_index == 0 {
                (MENU_CHOICES - 1) as int
            } else {
                old(stage).menu_index - 1
            },
        !input.down_pressed && !input.up_pressed ==> final(stage).menu_index
            == old(stage).menu_index,
        (input.accept_pressed || input.attack_pressed) ==> ({
            let idx = final(stage).menu_index;
            &&& (idx == 0 && old(score).life > 0) ==> final(stage).game_state is Resumed && r
                is Continue && *final(score) == *old(score)
            &&& idx == 1 ==> r is Restart && *final(score) == (ScoreData {
                graze: 0,
                score: 0,
                power: 1000,
                value: 10000,
                life: 3,
                spell: 3,
                difficulty: Difficulty::Normal,
            })
            &&& idx == 2 ==> r is ExitToMenu && *final(score) == *old(score)
        }),
        !(input.accept_pressed || input.attack_pressed) ==> final(stage).game_state
            == old(stage).game_state && r is Continue && *final(score) == *old(score),
{
    if input.down_pressed {
        stage.menu_index = (stage.menu_index + 1) % MENU_CHOICES;
        cues.push(Cue::Select);
    } else if input.up_pressed {
        if stage.menu_index == 0 {
            stage.menu_index = MENU_CHOICES - 1;
        } else {
            stage.menu_index = stage.menu_index - 1;
        }
        cues.push(Cue::Select);
    }
    if input.accept_pressed || input.attack_pressed {
        cues.push(Cue::Select);
        if stage.menu_index == 0 {
            if score.life > 0 {
                stage.game_state = GameState::Resumed;
            }
            return StepOutcome::Continue;
        }
        if stage.menu_index == 1 {
            *score = ScoreData::new(Difficulty::Normal);
            return StepOutcome::Restart;
        }
        return StepOutcome::ExitToMenu;
    }
    StepOutcome::Continue
}

/// Step the dialog: a newly pressed attack advances one line, and the stage
/// resumes once the last line is gone.
fn step_dialog(stage: &mut StageState, input: &InputState)
    requires
        stage_wf(*old(stage)),
    ensures
        stage_wf(*final(stage)),
        final(stage).world == old(stage).world,
        final(stage).event == old(stage).event,
        final(stage).menu_index == old(stage).menu_index,
        !input.attack_pressed ==> *final(stage) == *old(stage),
        input.attack_pressed && old(stage).dialog is None ==> final(stage).game_state
            is Resumed && final(stage).dialog is None,
        ({
            let d0 = old(stage).dialog;
            let d1 = final(stage).dialog;
            &&& (input.attack_pressed && d0 is Some && (d0->0).dialog_list@.len() <= 1
                ==> final(stage).game_state is Resumed && d1 is None)
            &&& (input.attack_pressed && d0 is Some && (d0->0).dialog_list@.len() > 1
                ==> final(stage).game_state == old(stage).game_state && d1 is Some
                    && (d1->0).dialog_list@ == (d0->0).dialog_list@.subrange(
                    1,
                    (d0->0).dialog_list@.len() as int,
                ))
        }),
{
    if !input.attack_pressed {
        return;
    }
    let mut taken: Option<Dialog> = None;
    core::mem::swap(&mut taken, &mut stage.dialog);
    match taken {
        Some(mut d) => {
            d.next();
            if d.done() {
                stage.game_state = GameState::Resumed;
            } else {
                stage.dialog = Some(d);
            }
        },
        None => {
            stage.game_state = GameState::Resumed;
        },
    }
}

/// One stage command applied to the running stage, each state a tuple of
/// store, open dialog, game state and cue list: the spawns append their
/// pinned bundle while identifier headroom remains, a track command pushes
/// its cue, and a dialog command opens the dialog.
pub open spec fn command_step_rel(
    cmd: StageCommand,
    a: (World, Option<Dialog>, GameState, Seq<Cue>),
    b: (World, Option<Dialog>, GameState, Seq<Cue>),
) -> bool {
    match cmd {
        StageCommand::SpawnPlayer => b.1 == a.1 && b.2 == a.2 && b.3 == a.3 && (
        if a.0.next_id < 0xffff_ffff_ffff_fffe {
            reimu_spawn_rel(a.0, b.0)
        } else {
            b.0 == a.0
        }),
        StageCommand::SpawnBoss => b.1 == a.1 && b.2 == a.2 && b.3 == a.3 && (
        if a.0.next_id < 0xffff_ffff_ffff_fffe {
            miko_spawn_rel(a.0, b.0)
        } else {
            b.0 == a.0
        }),
        StageCommand::PlayBgm(track) => b.0 == a.0 && b.1 == a.1 && b.2 == a.2 && b.3
            == a.3.push(Cue::Bgm(track)),
        StageCommand::ShowDialog(d) => b.0 == a.0 && b.1 == Some(d) && b.2 == GameState::Dialog
            && b.3 == a.3,
    }
}

/// A list of stage commands applied in order, chaining `command_step_rel`
/// through intermediate states.
pub open spec fn commands_rel(
    cmds: Seq<StageCommand>,
    a: (World, Option<Dialog>, GameState, Seq<Cue>),
    b: (World, Option<Dialog>, GameState, Seq<Cue>),
) -> bool
    decreases cmds.len(),
{
    if cmds.len() == 0 {
        b == a
    } else {
        exists|m: (World, Option<Dialog>, GameState, Seq<Cue>)|
            #[trigger] command_step_rel(cmds[0], a, m) && commands_rel(cmds.skip(1), m, b)
    }
}

/// Appending one applied command extends the chained relation.
proof fn lemma_commands_rel_push(
    cmds: Seq<StageCommand>,
    a: (World, Option<Dialog>, GameState, Seq<Cue>),
    b: (World, Option<Dialog>, GameState, Seq<Cue>),
    c: StageCommand,
    d: (World, Option<Dialog>, GameState, Seq<Cue>),
)
    requires
        commands_rel(cmds, a, b),
        command_step_rel(c, b, d),
    ensures
        commands_rel(cmds.push(c), a, d),
    decreases cmds.len(),
{
    if cmds.len() == 0 {
        assert(cmds.push(c)[0] == c);
        assert(cmds.push(c).skip(1) =~= cmds);
        assert(command_step_rel(cmds.push(c)[0], a, d));
        assert(commands_rel(cmds.push(c).skip(1), d, d));
    } else {
        let m = choose|m: (World, Option<Dialog>, GameState, Seq<Cue>)|
            #[trigger] command_step_rel(cmds[0], a, m) && commands_rel(cmds.skip(1), m, b);
        lemma_commands_rel_push(cmds.skip(1), m, b, c, d);
        assert(cmds.push(c)[0] == cmds[0]);
        assert(cmds.push(c).skip(1) =~= cmds.skip(1).push(c));
        assert(command_step_rel(cmds.push(c)[0], a, m) && commands_rel(cmds.push(c).skip(1), m,
            d));
    }
}

/// Everything the control pass promises around one store and cue list.
pub open spec fn control_pass_rel(
    w0: World,
    input: InputState,
    dt: int,
    c0: Seq<Cue>,
    w1: World,
    c1: Seq<Cue>,
) -> bool {
    &&& world_wf(w1)
    &&& w1.entries@.len() >= w0.entries@.len()
    &&& (forall|i: int|
        0 <= i < w0.entries@.len() ==> w1.entries@[i] == controlled_entry(
            #[trigger] w0.entries@[i],
            input,
            dt,
        ))
    &&& (forall|j: int|
        w0.entries@.len() <= j < w1.entries@.len() ==> ({
            let c = (#[trigger] w1.entries@[j]).c;
            c.player && c.bullet && c.die_offscreen && c.damage is Some
        }))
    &&& c1 == c0 + Seq::new(shot_positions(w0.entries@, input, dt).len(), |i: int| Cue::Shot)
    &&& (w0.next_id as int + shot_positions(w0.entries@, input, dt).len()
        <= 0xffff_ffff_ffff_fffe ==> ({
        let ps = shot_positions(w0.entries@, input, dt);
        &&& w1.next_id == w0.next_id + ps.len()
        &&& w1.entries@.len() == w0.entries@.len() + ps.len()
        &&& forall|j: int|
            0 <= j < ps.len() ==> w1.entries@[w0.entries@.len() + j] == (Entry {
                id: (w0.next_id + j) as u64,
                c: player_shot_comps(ps[j]),
            })
    }))
}

/// The movement pass: every entry stepped by its kinematics.
pub open spec fn movement_pass_rel(w0: World, dt: int, w1: World) -> bool {
    &&& world_wf(w1)
    &&& w1.next_id == w0.next_id
    &&& w1.entries@.len() == w0.entries@.len()
    &&& forall|i: int|
        0 <= i < w0.entries@.len() ==> w1.entries@[i] == moved_entry(
            #[trigger] w0.entries@[i],
            dt,
        )
}

/// The focus pass: every halo angle advanced.
pub open spec fn focus_pass_rel(w0: World, dt: int, w1: World) -> bool {
    &&& world_wf(w1)
    &&& w1.next_id == w0.next_id
    &&& w1.entries@.len() == w0.entries@.len()
    &&& forall|i: int|
        0 <= i < w0.entries@.len() ==> w1.entries@[i] == focused_entry(
            #[trigger] w0.entries@[i],
            dt,
        )
}

/// The culling pass: the store rewritten by the two-state rule.
pub open spec fn cull_pass_rel(w0: World, w1: World) -> bool {
    &&& world_wf(w1)
    &&& w1.next_id == w0.next_id
    &&& w1.entries@ == cull_seq(w0.entries@)
}

/// The wander pass: every entry related by the steering rule, the
/// generator state threaded through the retargeting entries in store
/// order.
pub open spec fn wander_pass_rel(w0: World, r0: Rng, dt: int, w1: World, r1: Rng) -> bool {
    &&& world_wf(w1)
    &&& rng_wf(r1)
    &&& w1.next_id == w0.next_id
    &&& w1.entries@.len() == w0.entries@.len()
    &&& r1.state == crate::control::wander_pass_state(w0.entries@, r0.state)
    &&& forall|i: int|
        0 <= i < w0.entries@.len() ==> wander_rel(#[trigger] w0.entries@[i], dt,
            crate::control::wander_pass_state(w0.entries@.subrange(0, i), r0.state),
            w1.entries@[i])
}

/// The boss attack pass: bosses ticked, volleys appended, cues and the
/// generator state folded over the store.
pub open spec fn bossatk_pass_rel(
    w0: World,
    r0: Rng,
    dt: int,
    c0: Seq<Cue>,
    w1: World,
    r1: Rng,
    c1: Seq<Cue>,
) -> bool {
    &&& world_wf(w1)
    &&& rng_wf(r1)
    &&& ((forall|i: int|
        0 <= i < w0.entries@.len() ==> !is_aim_player(#[trigger] w0.entries@[i])) ==> w1 == w0
        && r1 == r0 && c1 == c0)
    &&& w1.entries@.len() >= w0.entries@.len()
    &&& (forall|pk: int|
        first_aim_player_at(w0.entries@, pk) ==> forall|i: int|
            0 <= i < w0.entries@.len() ==> if is_attacking_boss(#[trigger] w0.entries@[i]) {
                boss_entry_rel(w0.entries@[i], dt, w1.entries@[i])
            } else {
                w1.entries@[i] == w0.entries@[i]
            })
    &&& (forall|j: int|
        w0.entries@.len() <= j < w1.entries@.len() ==> ({
            let c = (#[trigger] w1.entries@[j]).c;
            c.enemy && c.bullet && c.die_offscreen
        }))
    &&& (forall|pk: int|
        first_aim_player_at(w0.entries@, pk) ==> ({
            let target = (w0.entries@[pk].c.transform->0).position;
            let fold = boss_pass_out(w0.entries@, target, dt, r0.state);
            &&& r1.state == fold.2
            &&& c1 == c0 + fold.1
            &&& (w0.next_id as int + fold.0.len() <= 0xffff_ffff_ffff_fffe ==> (
                w1.entries@.len() == w0.entries@.len() + fold.0.len() && (forall|j: int|
                0 <= j < fold.0.len() ==> w1.entries@[w0.entries@.len() + j]
                    == spawned_bullet_entry(fold.0[j], (w0.next_id + j) as u64))))
        }))
}

/// The collision pass: the two sub-pass relations chained over the store in
/// the middle, with the life tally pinned.
pub open spec fn collision_pass_rel(
    w0: World,
    sc0: ScoreData,
    c0: Seq<Cue>,
    w1: World,
    sc1: ScoreData,
    c1: Seq<Cue>,
) -> bool {
    &&& world_wf(w1)
    &&& w1.next_id == w0.next_id
    &&& sc1 == if player_gets_hit(w0.entries@) {
        ScoreData { life: (sc0.life - 1) as i8, ..sc0 }
    } else {
        sc0
    }
    &&& exists|wm: World, cm: Seq<Cue>|
        #[trigger] player_pass_rel(w0, sc0, c0, wm, sc1, cm) && boss_pass_rel(wm, cm, w1, c1)
}

/// The invulnerability pass: every window wound down.
pub open spec fn invuln_pass_rel(w0: World, dt: int, w1: World) -> bool {
    &&& world_wf(w1)
    &&& w1.next_id == w0.next_id
    &&& w1.entries@.len() == w0.entries@.len()
    &&& forall|i: int|
        0 <= i < w0.entries@.len() ==> w1.entries@[i] == invuln_entry(
            #[trigger] w0.entries@[i],
            dt,
        )
}

/// The whole resumed frame written out pass by pass through its
/// intermediate states: the due stage commands applied to the stage, then
/// control, movement, focus, culling, wander, boss attacks, collision and
/// the invulnerability wind-down, the dialog and game state landing where
/// the commands and the life tally put them.
pub open spec fn frame_chain(
    stage0: StageState,
    score0: ScoreData,
    rng0: Rng,
    cues0: Seq<Cue>,
    input: InputState,
    dt: int,
    pw: World,
    pd: Option<Dialog>,
    pg: GameState,
    pc: Seq<Cue>,
    w2: World,
    c2: Seq<Cue>,
    w3: World,
    w4: World,
    w5: World,
    w6: World,
    r6: Rng,
    w7: World,
    c7: Seq<Cue>,
    w8: World,
    stage1: StageState,
    score1: ScoreData,
    rng1: Rng,
    cues1: Seq<Cue>,
) -> bool {
    let t2 = fx_add_spec(stage0.event.timer as int, dt);
    let due = due_commands(stage0.event.lists@, t2);
    &&& commands_rel(due, (stage0.world, stage0.dialog, GameState::Resumed, cues0), (pw, pd, pg,
        pc))
    &&& control_pass_rel(pw, input, dt, pc, w2, c2)
    &&& movement_pass_rel(w2, dt, w3)
    &&& focus_pass_rel(w3, dt, w4)
    &&& cull_pass_rel(w4, w5)
    &&& wander_pass_rel(w5, rng0, dt, w6, r6)
    &&& bossatk_pass_rel(w6, r6, dt, c2, w7, rng1, c7)
    &&& collision_pass_rel(w7, score0, c7, w8, score1, cues1)
    &&& invuln_pass_rel(w8, dt, stage1.world)
    &&& stage1.dialog == pd
    &&& stage1.game_state == (if score1.life < 0 {
        GameState::Paused
    } else {
        pg
    })
}

/// What a resumed, unescaped frame does: the stage clock advances, every
/// due event fires exactly once in script order, and some chain of
/// intermediate states runs the passes in their fixed order from the old
/// stage to the new one.
pub open spec fn resumed_frame_rel(
    stage0: StageState,
    score0: ScoreData,
    rng0: Rng,
    cues0: Seq<Cue>,
    input: InputState,
    dt: int,
    stage1: StageState,
    score1: ScoreData,
    rng1: Rng,
    cues1: Seq<Cue>,
) -> bool {
    let t2 = fx_add_spec(stage0.event.timer as int, dt);
    &&& stage1.event.timer == t2
    &&& stage1.event.lists@.len() == stage0.event.lists@.len()
    &&& (forall|i: int|
        0 <= i < stage0.event.lists@.len() ==> stage1.event.lists@[i] == event_after(
            #[trigger] stage0.event.lists@[i],
            t2,
        ))
    &&& stage1.menu_index == stage0.menu_index
    &&& exists|
        pw: World,
        pd: Option<Dialog>,
        pg: GameState,
        pc: Seq<Cue>,
        w2: World,
        c2: Seq<Cue>,
        w3: World,
        w4: World,
        w5: World,
        w6: World,
        r6: Rng,
        w7: World,
        c7: Seq<Cue>,
        w8: World,
    |
        #[trigger] frame_chain(stage0, score0, rng0, cues0, input, dt, pw, pd, pg, pc, w2, c2,
            w3, w4, w5, w6, r6, w7, c7, w8, stage1, score1, rng1, cues1)
}

/// Run one frame. A newly pressed escape toggles pause. A paused stage
/// steps its menu and a dialog steps its lines, both leaving the world
/// alone; a resumed stage fires due stage events and runs the simulation
/// passes in their fixed order, pausing itself when the player is out of
/// lives.
#[verifier::rlimit(100)]
pub fn stage_step(
    stage: &mut StageState,
    score: &mut ScoreData,
    input: &InputState,
    dt: i64,
    rng: &mut Rng,
    cues: &mut Vec<Cue>,
) -> (r: StepOutcome)
    requires
        stage_wf(*old(stage)),
        in_fx(dt as int),
        rng_wf(*old(rng)),
        old(score).life > -100,
    ensures
        stage_wf(*final(stage)),
        rng_wf(*final(rng)),
        old(stage).game_state is Paused && !input.escape_pressed ==> final(stage).world
            == old(stage).world,
        old(stage).game_state is Dialog ==> final(stage).world == old(stage).world
            && *final(score) == *old(score),
        old(stage).game_state is Resumed && input.escape_pressed ==> final(stage).world
            == old(stage).world,
        old(stage).game_state is Resumed && !input.escape_pressed ==> r is Continue
            && resumed_frame_rel(*old(stage), *old(score), *old(rng), old(cues)@, *input,
            dt as int, *final(stage), *final(score), *final(rng), final(cues)@),
{
    if input.escape_pressed {
        match stage.game_state {
            GameState::Paused => {
                stage.game_state = GameState::Resumed;
            },
            GameState::Resumed => {
                stage.game_state = GameState::Paused;
            },
            GameState::Dialog => {},
        }
    }
    match stage.game_state {
        GameState::Paused => step_paused(stage, score, input, cues),
        GameState::Dialog => {
            step_dialog(stage, input);
            StepOutcome::Continue
        },
        GameState::Resumed => {
            let ghost a0 = (stage.world, stage.dialog, stage.game_state, cues@);
            let due = stage.event.update(dt);
            let ghost due0 = due@;
            let ghost em1 = stage.event;
            let ghost mi0 = stage.menu_index;
            let mut commands = due;
            proof {
                assert(due0.subrange(0, 0) =~= Seq::<StageCommand>::empty());
                assert(commands_rel(due0.subrange(0, 0), a0, a0));
            }
            while commands.len() > 0
                invariant
                    stage_wf(*stage),
                    commands@.len() <= due0.len(),
                    commands@ =~= due0.subrange(due0.len() - commands@.len(),
                        due0.len() as int),
                    commands_rel(due0.subrange(0, due0.len() - commands@.len()), a0, (
                    stage.world, stage.dialog, stage.game_state, cues@)),
                    stage.event == em1,
                    stage.menu_index == mi0,
                decreases commands@.len(),
            {
                let ghost done = due0.len() - commands@.len();
                let ghost cur = (stage.world, stage.dialog, stage.game_state, cues@);
                let ghost pre = commands@;
                let cmd = commands.remove(0);
                proof {
                    assert(pre == due0.subrange(done, due0.len() as int));
                    assert(commands@ == pre.remove(0));
                    assert(cmd == pre[0]);
                    assert(due0.subrange(done, due0.len() as int)[0] == due0[done]);
                    assert(cmd == due0[done]);
                    assert forall|i2: int| 0 <= i2 < commands@.len() implies commands@[i2]
                        == due0[done + 1 + i2] by {
                        assert(commands@[i2] == pre[i2 + 1]);
                        assert(pre[i2 + 1] == due0.subrange(done, due0.len() as int)[i2 + 1]);
                    };
                    assert(commands@ =~= due0.subrange(done + 1, due0.len() as int));
                }
                match cmd {
                    StageCommand::SpawnPlayer => {
                        if stage.world.next_id < 0xffff_ffff_ffff_fffe {
                            reimu_a(&mut stage.world);
                        }
                    },
                    StageCommand::SpawnBoss => {
                        if stage.world.next_id < 0xffff_ffff_ffff_fffe {
                            miko(&mut stage.world);
                        }
                    },
                    StageCommand::PlayBgm(track) => {
                        cues.push(Cue::Bgm(track));
                    },
                    StageCommand::ShowDialog(d) => {
                        stage.dialog = Some(d);
                        stage.game_state = GameState::Dialog;
                    },
                }
                proof {
                    let nxt = (stage.world, stage.dialog, stage.game_state, cues@);
                    assert(command_step_rel(due0[done], cur, nxt));
                    lemma_commands_rel_push(due0.subrange(0, done), a0, cur, due0[done], nxt);
                    assert(due0.subrange(0, done).push(due0[done]) =~= due0.subrange(
                        0,
                        done + 1,
                    ));
                }
            }
            proof {
                assert(due0.subrange(0, due0.len() as int) =~= due0);
            }
            let ghost pw = stage.world;
            let ghost pd = stage.dialog;
            let ghost pg = stage.game_state;
            let ghost pc = cues@;
            player_control(&mut stage.world, input, dt, cues);
            let ghost w2 = stage.world;
            let ghost c2 = cues@;
            update_movement(&mut stage.world, dt);
            let ghost w3 = stage.world;
            rotate_focus(&mut stage.world, dt);
            let ghost w4 = stage.world;
            delete_offscreen(&mut stage.world);
            let ghost w5 = stage.world;
            wanderable_search(&mut stage.world, rng, dt);
            let ghost w6 = stage.world;
            let ghost r6 = *rng;
            update_boss_attack(&mut stage.world, rng, dt, cues);
            let ghost w7 = stage.world;
            let ghost c7 = cues@;
            update_collision(&mut stage.world, score, cues);
            let ghost w8 = stage.world;
            invulnerable_delay_update(&mut stage.world, dt);
            if score.life < 0 {
                stage.game_state = GameState::Paused;
            }
            proof {
                assert(a0 == (old(stage).world, old(stage).dialog, GameState::Resumed,
                    old(cues)@));
                assert(due0 == due_commands(old(stage).event.lists@, fx_add_spec(
                    old(stage).event.timer as int, dt as int)));
                assert(frame_chain(*old(stage), *old(score), *old(rng), old(cues)@, *input,
                    dt as int, pw, pd, pg, pc, w2, c2, w3, w4, w5, w6, r6, w7, c7, w8, *stage,
                    *score, *rng, cues@));
                assert(resumed_frame_rel(*old(stage), *old(score), *old(rng), old(cues)@,
                    *input, dt as int, *stage, *score, *rng, cues@));
            }
            StepOutcome::Continue
        },
    }
}

} // verus!
