//! Stage scripting: timed events and dialog boxes.
//!
//! A stage is a list of events, each a command that fires once when the
//! stage clock passes its start time. Commands are plain values the frame
//! driver executes; nothing here captures behaviour in closures.

use vstd::prelude::*;
use crate::fx::{fx_add, fx_add_spec, in_fx};

verus! {

/// One line of a dialog exchange.
#[derive(Clone, Copy, Debug)]
pub enum DialogItem {
    Player(&'static str),
    Opponent(&'static str),
}

/// A dialog box conversation: the two portrait names and the lines left to
/// show, front first.
#[derive(Debug)]
pub struct Dialog {
    pub player: &'static str,
    pub opponent: &'static str,
    pub dialog_list: Vec<DialogItem>,
}

impl Dialog {
    /// A conversation from its portraits and lines.
    pub fn new(player: &'static str, opponent: &'static str, dialog_list: Vec<DialogItem>) -> (r:
        Dialog)
        ensures
            r.player == player,
            r.opponent == opponent,
            r.dialog_list@ == dialog_list@,
    {
        Dialog { player, opponent, dialog_list }
    }

    /// Drop the line being shown.
    pub fn next(&mut self)
        ensures
            old(self).dialog_list@.len() == 0 ==> final(self).dialog_list@
                == old(self).dialog_list@,
            old(self).dialog_list@.len() > 0 ==> final(self).dialog_list@
                == old(self).dialog_list@.subrange(1, old(self).dialog_list@.len() as int),
            final(self).player == old(self).player,
            final(self).opponent == old(self).opponent,
    {
        if self.dialog_list.len() > 0 {
            self.dialog_list.remove(0);
            proof {
                assert(self.dialog_list@ =~= old(self).dialog_list@.subrange(
                    1,
                    old(self).dialog_list@.len() as int,
                ));
            }
        }
    }

    /// Whether every line has been shown.
    pub fn done(&self) -> (r: bool)
        ensures
            r == (self.dialog_list@.len() == 0),
    {
        self.dialog_list.len() == 0
    }
}

/// What a stage event asks the frame driver to do.
#[derive(Debug)]
pub enum StageCommand {
    /// Spawn the playable character.
    SpawnPlayer,
    /// Spawn the boss.
    SpawnBoss,
    /// Start the numbered background track.
    PlayBgm(usize),
    /// Open a dialog exchange.
    ShowDialog(Dialog),
}

/// One scripted event: fires once when the stage clock passes its start.
#[derive(Debug)]
pub struct StageEvent {
    /// Stage time after which the event fires, fixed-point seconds.
    pub start: i64,
    /// The command, present until the event has fired.
    pub command: Option<StageCommand>,
}

/// The stage script: a clock and the scripted events.
#[derive(Debug)]
pub struct EventManager {
    /// Stage time so far, fixed-point seconds.
    pub timer: i64,
    pub lists: Vec<StageEvent>,
}

/// Every event start and the clock are in the fixed-point range.
pub open spec fn events_in_fx(m: EventManager) -> bool {
    in_fx(m.timer as int) && forall|i: int|
        0 <= i < m.lists@.len() ==> in_fx((#[trigger] m.lists@[i]).start as int)
}

/// Whether an event fires once the clock stands at `t`: not yet fired and
/// past its start.
pub open spec fn event_fires(e: StageEvent, t: int) -> bool {
    e.command is Some && e.start < t
}

/// An event after a tick to clock `t`: fired ones give their command up.
pub open spec fn event_after(e: StageEvent, t: int) -> StageEvent {
    if event_fires(e, t) {
        StageEvent { start: e.start, command: None }
    } else {
        e
    }
}

/// The commands of the events that fire at clock `t`, in script order.
pub open spec fn due_commands(l: Seq<StageEvent>, t: int) -> Seq<StageCommand>
    decreases l.len(),
{
    if l.len() == 0 {
        Seq::empty()
    } else {
        due_commands(l.subrange(0, l.len() - 1), t) + if event_fires(l[l.len() - 1], t) {
            seq![(l[l.len() - 1].command)->0]
        } else {
            Seq::empty()
        }
    }
}

impl EventManager {
    /// An empty script at time zero.
    pub fn new() -> (r: EventManager)
        ensures
            r.timer == 0,
            r.lists@.len() == 0,
            events_in_fx(r),
    {
        EventManager { timer: 0, lists: Vec::new() }
    }

    /// Append an event firing after `start` seconds.
    pub fn add(&mut self, start: i64, command: StageCommand)
        requires
            in_fx(start as int),
        ensures
            final(self).timer == old(self).timer,
            final(self).lists@.len() == old(self).lists@.len() + 1,
            final(self).lists@.subrange(0, old(self).lists@.len() as int)
                =~= old(self).lists@,
            final(self).lists@[old(self).lists@.len() as int].start == start,
            final(self).lists@[old(self).lists@.len() as int].command == Some(command),
            events_in_fx(*old(self)) ==> events_in_fx(*final(self)),
    {
        self.lists.push(StageEvent { start, command: Some(command) });
        proof {
            assert(self.lists@.subrange(0, old(self).lists@.len() as int)
                =~= old(self).lists@);
        }
    }

    /// Advance the stage clock and collect the commands of every event the
    /// clock has now passed, each handed out exactly once, in script order.
    pub fn update(&mut self, dt: i64) -> (due: Vec<StageCommand>)
        requires
            events_in_fx(*old(self)),
            in_fx(dt as int),
        ensures
            final(self).timer == fx_add_spec(old(self).timer as int, dt as int),
            final(self).lists@.len() == old(self).lists@.len(),
            forall|i: int|
                0 <= i < old(self).lists@.len() ==> final(self).lists@[i] == event_after(
                    #[trigger] old(self).lists@[i],
                    fx_add_spec(old(self).timer as int, dt as int),
                ),
            events_in_fx(*final(self)),
            due@ =~= due_commands(old(self).lists@, fx_add_spec(old(self).timer as int,
                dt as int)),
    {
        self.timer = fx_add(self.timer, dt);
        let t = self.timer;
        let ghost l0 = self.lists@;
        let mut src: Vec<StageEvent> = Vec::new();
        core::mem::swap(&mut src, &mut self.lists);
        let mut out: Vec<StageEvent> = Vec::new();
        let mut due: Vec<StageCommand> = Vec::new();
        proof {
            assert(due@ =~= due_commands(l0.subrange(0, 0), t as int));
        }
        while src.len() > 0
            invariant
                out@.len() + src@.len() == l0.len(),
                src@ == l0.subrange(out@.len() as int, l0.len() as int),
                forall|k: int|
                    0 <= k < out@.len() ==> out@[k] == event_after(#[trigger] l0[k], t as int),
                forall|k: int| 0 <= k < l0.len() ==> in_fx((#[trigger] l0[k]).start as int),
                due@ =~= due_commands(l0.subrange(0, out@.len() as int), t as int),
            decreases src@.len(),
        {
            let ghost done = out@.len() as int;
            let mut e = src.remove(0);
            proof {
                assert(e == l0[done]);
                assert(src@ =~= l0.subrange(done + 1, l0.len() as int));
                assert(l0.subrange(0, done + 1).subrange(0, done) =~= l0.subrange(0, done));
                assert(l0.subrange(0, done + 1)[done] == l0[done]);
            }
            if e.command.is_some() && e.start < t {
                let mut cmd: Option<StageCommand> = None;
                core::mem::swap(&mut cmd, &mut e.command);
                match cmd {
                    Some(c) => due.push(c),
                    None => {},
                }
            }
            out.push(e);
            proof {
                assert(due@ =~= due_commands(l0.subrange(0, done + 1), t as int));
            }
        }
        self.lists = out;
        proof {
            assert forall|i: int| 0 <= i < self.lists@.len() implies in_fx(
                (#[trigger] self.lists@[i]).start as int) by {
                assert(self.lists@[i] == event_after(l0[i], t as int));
            };
            assert(l0.subrange(0, l0.len() as int) =~= l0);
        }
        due
    }
}

/// The first stage's script: the player appears at once; a second in, the
/// boss arrives, its theme starts and the opening dialog plays.
pub fn stage1() -> (r: EventManager)
    ensures
        events_in_fx(r),
        r.lists@.len() == 4,
        r.timer == 0,
        r.lists@[0].start == 0 && r.lists@[0].command == Some(StageCommand::SpawnPlayer),
        r.lists@[1].start == 1_000 && r.lists@[1].command == Some(StageCommand::SpawnBoss),
        r.lists@[2].start == 1_000 && r.lists@[2].command == Some(StageCommand::PlayBgm(8)),
        r.lists@[3].start == 1_000,
        r.lists@[3].command matches Some(StageCommand::ShowDialog(d)) && d.player == "reimu_char"
            && d.opponent == "miko_char" && d.dialog_list@.len() == 2
            && (d.dialog_list@[0] matches DialogItem::Player(s) && s == "Dialog In Progress")
            && (d.dialog_list@[1] matches DialogItem::Opponent(s) && s == "Dialog In Progress"),
{
    let mut event = EventManager::new();
    event.add(0, StageCommand::SpawnPlayer);
    event.add(1_000, StageCommand::SpawnBoss);
    event.add(1_000, StageCommand::PlayBgm(8));
    let mut lines: Vec<DialogItem> = Vec::new();
    lines.push(DialogItem::Player("Dialog In Progress"));
    lines.push(DialogItem::Opponent("Dialog In Progress"));
    event.add(1_000, StageCommand::ShowDialog(Dialog::new("reimu_char", "miko_char", lines)));
    event
}

} // verus!
