//! One connected controller, from its recognition to its removal.
//!
//! A [`Session`] decides, the program around it acts: it performs the pending [`Action`],
//! hands the [`Event`] that came of it to [`Session::step`], and gets the next action.

use crate::color;
use crate::deadzone;
use crate::errors::{GamepadError, PipeError};
use crate::gamepad;
use crate::gamepad::GamepadReport;
use vstd::prelude::*;

verus! {

/// Step between two colours that count as different.
///
/// A stick in motion changes with every report; without steps one turn round the colour
/// wheel would send a thousand packets.
pub const LIGHTBAR_STEP: u8 = 16;

/// The highest player number that the directional pad can reach.
pub const PLAYERS_MAX: u8 = 5;

/// The player number that a fresh controller shows.
pub const FIRST_PLAYER_INDEX: u8 = 1;

/// What the program is to do next.
#[derive(Clone, Copy, Debug, PartialEq, Eq, Structural)]
pub enum Action {
    /// Show a player number on the controller.
    SetPlayerIndex(u8),
    /// Give the light bar a colour.
    SetLightbar {
        /// Amount of red.
        red: u8,
        /// Amount of green.
        green: u8,
        /// Amount of blue.
        blue: u8,
    },
    /// Read the next input report.
    Poll,
    /// Make a changed report known, and set the lamp on the board to its right trigger.
    Announce(GamepadReport),
    /// Set both motors to this strength.
    SetRumble(u8),
    /// Put the lamp on the board out; where so marked, try to stop the motors as well.
    Close {
        /// The controller may still be there.
        stop_rumble: bool,
    },
    /// The controller is gone, nothing is left to do.
    Finish,
}

/// What came of an action.
#[derive(Clone, Copy, Debug, PartialEq, Eq, Structural)]
pub enum Event {
    /// It was done.
    Done,
    /// It failed.
    Failed,
    /// This report was read.
    Report(GamepadReport),
    /// Reading failed.
    ReadError(GamepadError),
}

/// Where a session stands.
#[derive(Clone, Copy, Debug, PartialEq, Eq, Structural)]
pub enum Stage {
    /// The first player number is being sent, to find out whether the device takes output.
    Probing,
    /// The light bar gets its first colour.
    Greeting,
    /// The next report is awaited.
    Reading,
    /// A changed report is being made known.
    Announcing,
    /// The motors are being set.
    Rumbling,
    /// A player number is being sent.
    Numbering,
    /// A colour is being sent.
    Colouring,
    /// The controller is being given up.
    Closing {
        /// The controller may still be there.
        stop_rumble: bool,
    },
    /// The controller is gone.
    Closed,
}

/// What is remembered of a connected controller.
#[derive(Clone, Copy, Debug, PartialEq, Eq)]
pub struct Session {
    /// The controller has a light bar.
    pub has_lightbar: bool,
    /// The controller has taken everything that was sent so far.
    pub output_ok: bool,
    /// The report that was acted on last.
    pub last: GamepadReport,
    /// The strength that the motors were last set to.
    pub last_rumble: u8,
    /// The player number that the directional pad has reached.
    pub players: u8,
    /// The step of the colour that was last sent.
    pub last_rgb: (u8, u8, u8),
    /// The report that is being acted on.
    pub current: GamepadReport,
    /// Where the session stands.
    pub stage: Stage,
}

/// The step that a colour lies on.
pub open spec fn color_step(c: (int, int, int)) -> (u8, u8, u8) {
    ((c.0 / 16) as u8, (c.1 / 16) as u8, (c.2 / 16) as u8)
}

/// The player number after a report: one up when up was pressed since the one before, one
/// down when down was, within 0 to 5; a direction that is held does not count again.
pub open spec fn players_after(before: GamepadReport, now: GamepadReport, players: u8) -> u8 {
    if now.dpad_up && !before.dpad_up && players < PLAYERS_MAX {
        (players + 1) as u8
    } else if now.dpad_down && !before.dpad_down && players > 0 {
        (players - 1) as u8
    } else {
        players
    }
}

// ── How a session moves on ───────────────────────────────────────────────────

impl Session {
    /// A session for a controller that was just recognised.
    pub open spec fn fresh(has_lightbar: bool) -> Session {
        Session {
            has_lightbar,
            output_ok: true,
            last: gamepad::idle_report(),
            last_rumble: 0,
            players: 0,
            last_rgb: (0, 0, 0),
            current: gamepad::idle_report(),
            stage: Stage::Probing,
        }
    }

    /// The action that is to be performed now.
    pub open spec fn pending(self) -> Action {
        match self.stage {
            Stage::Probing => Action::SetPlayerIndex(FIRST_PLAYER_INDEX),
            Stage::Greeting => Action::SetLightbar { red: 0, green: 255, blue: 0 },
            Stage::Reading => Action::Poll,
            Stage::Announcing => Action::Announce(self.current),
            Stage::Rumbling => Action::SetRumble(deadzone::rumble(self.current.left_trigger)),
            Stage::Numbering => Action::SetPlayerIndex(self.players),
            Stage::Colouring => {
                let c = color::report_color(self.current);
                Action::SetLightbar { red: c.0 as u8, green: c.1 as u8, blue: c.2 as u8 }
            },
            Stage::Closing { stop_rumble } => Action::Close { stop_rumble },
            Stage::Closed => Action::Finish,
        }
    }

    /// The current report has been acted on.
    pub open spec fn done_with_report(self) -> Session {
        Session { last: self.current, stage: Stage::Reading, ..self }
    }

    /// The motors and the player number are settled, the colour comes next.
    pub open spec fn go_to_color(self) -> Session {
        let step = color_step(color::report_color(self.current));
        if self.output_ok && step != self.last_rgb {
            if self.has_lightbar {
                Session { stage: Stage::Colouring, ..self }
            } else {
                Session { last_rgb: step, ..self }.done_with_report()
            }
        } else {
            self.done_with_report()
        }
    }

    /// The motors are settled, the player number comes next.
    pub open spec fn go_to_players(self) -> Session {
        let players = players_after(self.last, self.current, self.players);
        if self.output_ok && players != self.players {
            Session { players, stage: Stage::Numbering, ..self }
        } else {
            self.go_to_color()
        }
    }

    /// The report was made known, the motors come next.
    pub open spec fn go_to_rumble(self) -> Session {
        if self.output_ok && deadzone::rumble(self.current.left_trigger) != self.last_rumble {
            Session { stage: Stage::Rumbling, ..self }
        } else {
            self.go_to_players()
        }
    }

    /// The session once the pending action was performed. An event that is no answer to
    /// the pending action changes nothing.
    pub open spec fn next(self, event: Event) -> Session {
        match (self.stage, event) {
            (Stage::Probing, Event::Done) | (Stage::Probing, Event::Failed) => Session {
                output_ok: event == Event::Done,
                stage: if self.has_lightbar {
                    Stage::Greeting
                } else {
                    Stage::Reading
                },
                ..self
            },
            (Stage::Greeting, Event::Done) | (Stage::Greeting, Event::Failed) => Session {
                stage: Stage::Reading,
                ..self
            },
            (Stage::Reading, Event::Report(raw)) => {
                let report = deadzone::settled(raw);
                if report == self.last {
                    self
                } else {
                    Session { current: report, stage: Stage::Announcing, ..self }
                }
            },
            (Stage::Reading, Event::ReadError(e)) => Session {
                stage: Stage::Closing {
                    stop_rumble: e != GamepadError::Transfer(PipeError::Disconnected),
                },
                ..self
            },
            (Stage::Announcing, Event::Done) | (Stage::Announcing, Event::Failed) => {
                self.go_to_rumble()
            },
            (Stage::Rumbling, Event::Done) | (Stage::Rumbling, Event::Failed) => Session {
                output_ok: self.output_ok && event == Event::Done,
                last_rumble: deadzone::rumble(self.current.left_trigger),
                ..self
            }.go_to_players(),
            (Stage::Numbering, Event::Done) | (Stage::Numbering, Event::Failed) => Session {
                output_ok: self.output_ok && event == Event::Done,
                ..self
            }.go_to_color(),
            (Stage::Colouring, Event::Done) | (Stage::Colouring, Event::Failed) => Session {
                output_ok: self.output_ok && event == Event::Done,
                last_rgb: color_step(color::report_color(self.current)),
                ..self
            }.done_with_report(),
            (Stage::Closing { .. }, Event::Done) | (Stage::Closing { .. }, Event::Failed) => Session {
                stage: Stage::Closed,
                ..self
            },
            _ => self,
        }
    }
}

impl Session {
    /// Starts a session for a controller that was just recognised.
    pub fn new(has_lightbar: bool) -> (s: Session)
        ensures
            s == Session::fresh(has_lightbar),
    {
        Session {
            has_lightbar,
            output_ok: true,
            last: GamepadReport::default(),
            last_rumble: 0,
            players: 0,
            last_rgb: (0, 0, 0),
            current: GamepadReport::default(),
            stage: Stage::Probing,
        }
    }

    /// The action that is to be performed now.
    pub fn action(&self) -> (a: Action)
        ensures
            a == self.pending(),
    {
        match self.stage {
            Stage::Probing => Action::SetPlayerIndex(FIRST_PLAYER_INDEX),
            Stage::Greeting => Action::SetLightbar { red: 0, green: 255, blue: 0 },
            Stage::Reading => Action::Poll,
            Stage::Announcing => Action::Announce(self.current),
            Stage::Rumbling => Action::SetRumble(
                deadzone::rumble_level(self.current.left_trigger),
            ),
            Stage::Numbering => Action::SetPlayerIndex(self.players),
            Stage::Colouring => {
                let (red, green, blue) = color::sticks_to_rgb(&self.current);
                Action::SetLightbar { red, green, blue }
            },
            Stage::Closing { stop_rumble } => Action::Close { stop_rumble },
            Stage::Closed => Action::Finish,
        }
    }

    /// Takes note of what came of the pending action and says what to do next.
    pub fn step(&mut self, event: Event) -> (a: Action)
        ensures
            *final(self) == old(self).next(event),
            a == final(self).pending(),
    {
        match (self.stage, event) {
            (Stage::Probing, Event::Done) => {
                self.begin(true);
            },
            (Stage::Probing, Event::Failed) => {
                self.begin(false);
            },
            (Stage::Greeting, Event::Done) | (Stage::Greeting, Event::Failed) => {
                self.stage = Stage::Reading;
            },
            (Stage::Reading, Event::Report(raw)) => {
                let report = deadzone::apply_deadzone(raw);
                if report != self.last {
                    self.current = report;
                    self.stage = Stage::Announcing;
                }
            },
            (Stage::Reading, Event::ReadError(e)) => {
                let stop_rumble = match e {
                    GamepadError::Transfer(PipeError::Disconnected) => false,
                    _ => true,
                };
                self.stage = Stage::Closing { stop_rumble };
            },
            (Stage::Announcing, Event::Done) | (Stage::Announcing, Event::Failed) => {
                self.start_rumble();
            },
            (Stage::Rumbling, Event::Done) => {
                self.last_rumble = deadzone::rumble_level(self.current.left_trigger);
                self.start_players();
            },
            (Stage::Rumbling, Event::Failed) => {
                self.output_ok = false;
                self.last_rumble = deadzone::rumble_level(self.current.left_trigger);
                self.start_players();
            },
            (Stage::Numbering, Event::Done) => {
                self.start_color();
            },
            (Stage::Numbering, Event::Failed) => {
                self.output_ok = false;
                self.start_color();
            },
            (Stage::Colouring, Event::Done) => {
                self.end_color();
            },
            (Stage::Colouring, Event::Failed) => {
                self.output_ok = false;
                self.end_color();
            },
            (Stage::Closing { .. }, Event::Done) | (Stage::Closing { .. }, Event::Failed) => {
                self.stage = Stage::Closed;
            },
            _ => {},
        }
        self.action()
    }

    /// Takes note of whether the device takes output, and goes on to greet or to read.
    fn begin(&mut self, output_ok: bool)
        ensures
            *final(self) == (Session {
                output_ok,
                stage: if old(self).has_lightbar {
                    Stage::Greeting
                } else {
                    Stage::Reading
                },
                ..*old(self)
            }),
    {
        self.output_ok = output_ok;
        self.stage = if self.has_lightbar {
            Stage::Greeting
        } else {
            Stage::Reading
        };
    }

    fn start_rumble(&mut self)
        ensures
            *final(self) == old(self).go_to_rumble(),
    {
        let level = deadzone::rumble_level(self.current.left_trigger);
        if self.output_ok && level != self.last_rumble {
            self.stage = Stage::Rumbling;
        } else {
            self.start_players();
        }
    }

    fn start_players(&mut self)
        ensures
            *final(self) == old(self).go_to_players(),
    {
        let up = self.current.dpad_up && !self.last.dpad_up && self.players < PLAYERS_MAX;
        let down = self.current.dpad_down && !self.last.dpad_down && self.players > 0;
        if self.output_ok && up {
            self.players = self.players + 1;
            self.stage = Stage::Numbering;
        } else if self.output_ok && down {
            self.players = self.players - 1;
            self.stage = Stage::Numbering;
        } else {
            self.start_color();
        }
    }

    fn start_color(&mut self)
        ensures
            *final(self) == old(self).go_to_color(),
    {
        let step = self.current_color_step();
        let changed = step.0 != self.last_rgb.0 || step.1 != self.last_rgb.1 || step.2
            != self.last_rgb.2;
        if self.output_ok && changed {
            if self.has_lightbar {
                self.stage = Stage::Colouring;
            } else {
                self.last_rgb = step;
                self.last = self.current;
                self.stage = Stage::Reading;
            }
        } else {
            self.last = self.current;
            self.stage = Stage::Reading;
        }
    }

    fn end_color(&mut self)
        ensures
            *final(self) == (Session {
                last_rgb: color_step(color::report_color(old(self).current)),
                ..*old(self)
            }).done_with_report(),
    {
        self.last_rgb = self.current_color_step();
        self.last = self.current;
        self.stage = Stage::Reading;
    }

    /// The step of the colour that the current report asks for.
    fn current_color_step(&self) -> (r: (u8, u8, u8))
        ensures
            r == color_step(color::report_color(self.current)),
    {
        let (red, green, blue) = color::sticks_to_rgb(&self.current);
        (red / LIGHTBAR_STEP, green / LIGHTBAR_STEP, blue / LIGHTBAR_STEP)
    }
}

// ── Laws ─────────────────────────────────────────────────────────────────────

impl Session {
    /// What holds of a session at all times: the player number is within its range, and
    /// motors, player number and colour are being set only while the device takes output,
    /// a colour moreover only where there is a light bar.
    pub open spec fn wf(self) -> bool {
        &&& self.players <= PLAYERS_MAX
        &&& self.stage is Rumbling || self.stage is Numbering || self.stage is Colouring
            ==> self.output_ok
        &&& self.stage is Greeting || self.stage is Colouring ==> self.has_lightbar
        &&& self.last == deadzone::settled(self.last)
        &&& self.current == deadzone::settled(self.current)
    }

    /// A report is being acted on.
    pub open spec fn busy(self) -> bool {
        self.stage is Announcing || self.stage is Rumbling || self.stage is Numbering
            || self.stage is Colouring
    }

    /// How many actions are left at most until the next report is read.
    pub open spec fn actions_left(self) -> nat {
        match self.stage {
            Stage::Announcing => 4,
            Stage::Rumbling => 3,
            Stage::Numbering => 2,
            Stage::Colouring => 1,
            _ => 0,
        }
    }
}

/// How the device answers while one report is acted on.
pub struct Answers {
    /// Setting the motors succeeds.
    pub rumble: bool,
    /// Showing the player number succeeds.
    pub players: bool,
    /// Setting the colour succeeds.
    pub color: bool,
}

impl Answers {
    /// The event that answers the pending action.
    pub open spec fn to(self, s: Session) -> Event {
        let ok = match s.stage {
            Stage::Rumbling => self.rumble,
            Stage::Numbering => self.players,
            Stage::Colouring => self.color,
            _ => true,
        };
        if ok {
            Event::Done
        } else {
            Event::Failed
        }
    }
}

/// The session once the report at hand has been acted on.
pub open spec fn after_round(s: Session, a: Answers) -> Session
    decreases s.actions_left(),
{
    if s.busy() {
        after_round(s.next(a.to(s)), a)
    } else {
        s
    }
}

/// The actions that are performed until the report at hand has been acted on.
pub open spec fn round_actions(s: Session, a: Answers) -> Seq<Action>
    decreases s.actions_left(),
{
    if s.busy() {
        seq![s.pending()] + round_actions(s.next(a.to(s)), a)
    } else {
        Seq::empty()
    }
}

/// One action, or none.
pub open spec fn only_if(condition: bool, action: Action) -> Seq<Action> {
    if condition {
        seq![action]
    } else {
        Seq::empty()
    }
}

/// A fresh session is in order, and whatever happens it stays so.
pub proof fn lemma_sessions_stay_in_order(has_lightbar: bool, s: Session, event: Event)
    ensures
        Session::fresh(has_lightbar).wf(),
        s.wf() ==> s.next(event).wf(),
{
    deadzone::lemma_idle_is_settled();
    if let Event::Report(raw) = event {
        deadzone::lemma_settled_is_idempotent(raw);
    }
}

/// Where a sequence of events leads from a fresh session.
pub open spec fn session_after(has_lightbar: bool, events: Seq<Event>) -> Session
    decreases events.len(),
{
    if events.len() == 0 {
        Session::fresh(has_lightbar)
    } else {
        session_after(has_lightbar, events.drop_last()).next(events.last())
    }
}

impl Session {
    /// The motors have the strength that the left trigger asks for, as far as that is
    /// settled: by the last report while nothing was done about a newer one, by the current
    /// one from then on. Once output has failed nothing is said.
    pub open spec fn motors_in_step(self) -> bool {
        match self.stage {
            Stage::Probing => self.last_rumble == deadzone::rumble(self.last.left_trigger),
            Stage::Greeting | Stage::Reading | Stage::Announcing => self.output_ok
                ==> self.last_rumble == deadzone::rumble(self.last.left_trigger),
            Stage::Numbering | Stage::Colouring => self.output_ok ==> self.last_rumble
                == deadzone::rumble(self.current.left_trigger),
            _ => true,
        }
    }
}

/// Every session is in order at all times, and as long as the device takes output its
/// motors follow the left trigger.
pub proof fn lemma_every_session(has_lightbar: bool, events: Seq<Event>)
    ensures
        session_after(has_lightbar, events).wf(),
        session_after(has_lightbar, events).motors_in_step(),
    decreases events.len(),
{
    if events.len() > 0 {
        lemma_every_session(has_lightbar, events.drop_last());
        lemma_sessions_stay_in_order(
            has_lightbar,
            session_after(has_lightbar, events.drop_last()),
            events.last(),
        );
    } else {
        lemma_sessions_stay_in_order(has_lightbar, Session::fresh(has_lightbar), Event::Done);
    }
}

/// A report that differs from the last one only by jitter, or not at all, leads to nothing
/// but the next read.
pub proof fn lemma_unchanged_report_is_silent(s: Session, raw: GamepadReport)
    requires
        s.stage is Reading,
        deadzone::settled(raw) == s.last,
    ensures
        s.next(Event::Report(raw)) == s,
        s.next(Event::Report(raw)).pending() == Action::Poll,
{
}

/// What is left of a round from the colour on.
proof fn lemma_color_part(s: Session, a: Answers)
    ensures
        ({
            let c = color::report_color(s.current);
            let t = s.go_to_color();
            let new_color = s.output_ok && color_step(c) != s.last_rgb;
            let set_color = new_color && s.has_lightbar;
            &&& round_actions(t, a) == only_if(
                set_color,
                Action::SetLightbar { red: c.0 as u8, green: c.1 as u8, blue: c.2 as u8 },
            )
            &&& after_round(t, a) == Session {
                output_ok: s.output_ok && (set_color ==> a.color),
                last: s.current,
                last_rgb: if new_color {
                    color_step(c)
                } else {
                    s.last_rgb
                },
                stage: Stage::Reading,
                ..s
            }
        }),
{
    let t = s.go_to_color();
    if t.stage is Colouring {
        let u = t.next(a.to(t));
        assert(u.stage is Reading);
        assert(after_round(u, a) == u);
        assert(round_actions(u, a) == Seq::<Action>::empty());
        assert(round_actions(t, a) =~= seq![t.pending()]);
    }
}

/// What is left of a round from the player number on.
proof fn lemma_players_part(s: Session, a: Answers)
    ensures
        ({
            let c = color::report_color(s.current);
            let players = players_after(s.last, s.current, s.players);
            let t = s.go_to_players();
            let set_players = s.output_ok && players != s.players;
            let ok2 = s.output_ok && (set_players ==> a.players);
            let new_color = ok2 && color_step(c) != s.last_rgb;
            let set_color = new_color && s.has_lightbar;
            &&& round_actions(t, a) == only_if(set_players, Action::SetPlayerIndex(players))
                + only_if(
                set_color,
                Action::SetLightbar { red: c.0 as u8, green: c.1 as u8, blue: c.2 as u8 },
            )
            &&& after_round(t, a) == Session {
                output_ok: ok2 && (set_color ==> a.color),
                last: s.current,
                players: if set_players {
                    players
                } else {
                    s.players
                },
                last_rgb: if new_color {
                    color_step(c)
                } else {
                    s.last_rgb
                },
                stage: Stage::Reading,
                ..s
            }
        }),
{
    let players = players_after(s.last, s.current, s.players);
    let t = s.go_to_players();
    if s.output_ok && players != s.players {
        let shown = Session { output_ok: a.players, ..t };
        lemma_color_part(shown, a);
        assert(t.next(a.to(t)) == shown.go_to_color());
        assert(after_round(t, a) == after_round(shown.go_to_color(), a));
        assert(round_actions(t, a) == seq![t.pending()] + round_actions(shown.go_to_color(), a));
    } else {
        lemma_color_part(s, a);
        assert(only_if(false, Action::SetPlayerIndex(players)) + round_actions(t, a)
            =~= round_actions(t, a));
    }
}

/// What is left of a round from the motors on.
proof fn lemma_rumble_part(s: Session, a: Answers)
    ensures
        ({
            let c = color::report_color(s.current);
            let level = deadzone::rumble(s.current.left_trigger);
            let players = players_after(s.last, s.current, s.players);
            let t = s.go_to_rumble();
            let set_rumble = s.output_ok && level != s.last_rumble;
            let ok1 = s.output_ok && (set_rumble ==> a.rumble);
            let set_players = ok1 && players != s.players;
            let ok2 = ok1 && (set_players ==> a.players);
            let new_color = ok2 && color_step(c) != s.last_rgb;
            let set_color = new_color && s.has_lightbar;
            &&& round_actions(t, a) == only_if(set_rumble, Action::SetRumble(level)) + (only_if(
                set_players,
                Action::SetPlayerIndex(players),
            ) + only_if(
                set_color,
                Action::SetLightbar { red: c.0 as u8, green: c.1 as u8, blue: c.2 as u8 },
            ))
            &&& after_round(t, a) == Session {
                output_ok: ok2 && (set_color ==> a.color),
                last: s.current,
                last_rumble: if set_rumble {
                    level
                } else {
                    s.last_rumble
                },
                players: if set_players {
                    players
                } else {
                    s.players
                },
                last_rgb: if new_color {
                    color_step(c)
                } else {
                    s.last_rgb
                },
                stage: Stage::Reading,
                ..s
            }
        }),
{
    let level = deadzone::rumble(s.current.left_trigger);
    let t = s.go_to_rumble();
    if s.output_ok && level != s.last_rumble {
        let set = Session { output_ok: a.rumble, last_rumble: level, ..t };
        lemma_players_part(set, a);
        assert(t.next(a.to(t)) == set.go_to_players());
        assert(after_round(t, a) == after_round(set.go_to_players(), a));
        assert(round_actions(t, a) == seq![t.pending()] + round_actions(set.go_to_players(), a));
    } else {
        lemma_players_part(s, a);
        assert(only_if(false, Action::SetRumble(level)) + round_actions(t, a) =~= round_actions(
            t,
            a,
        ));
    }
}

/// What a changed report leads to, all in all. It is made known; then the motors are set
/// if their strength changes, then the player number is shown if it changes, then the light
/// bar gets its colour if that moves to another step. The first of these that fails is the
/// last that is tried. Afterwards the report is remembered and the next one is read.
pub proof fn lemma_round(s: Session, raw: GamepadReport, a: Answers)
    requires
        s.stage is Reading,
        deadzone::settled(raw) != s.last,
    ensures
        ({
            let report = deadzone::settled(raw);
            let level = deadzone::rumble(report.left_trigger);
            let players = players_after(s.last, report, s.players);
            let c = color::report_color(report);
            let begun = s.next(Event::Report(raw));
            let set_rumble = s.output_ok && level != s.last_rumble;
            let ok1 = s.output_ok && (set_rumble ==> a.rumble);
            let set_players = ok1 && players != s.players;
            let ok2 = ok1 && (set_players ==> a.players);
            let new_color = ok2 && color_step(c) != s.last_rgb;
            let set_color = new_color && s.has_lightbar;
            let ok3 = ok2 && (set_color ==> a.color);
            &&& round_actions(begun, a) == seq![Action::Announce(report)] + only_if(
                set_rumble,
                Action::SetRumble(level),
            ) + only_if(set_players, Action::SetPlayerIndex(players)) + only_if(
                set_color,
                Action::SetLightbar { red: c.0 as u8, green: c.1 as u8, blue: c.2 as u8 },
            )
            &&& after_round(begun, a) == Session {
                has_lightbar: s.has_lightbar,
                output_ok: ok3,
                last: report,
                last_rumble: if set_rumble {
                    level
                } else {
                    s.last_rumble
                },
                players: if set_players {
                    players
                } else {
                    s.players
                },
                last_rgb: if new_color {
                    color_step(c)
                } else {
                    s.last_rgb
                },
                current: report,
                stage: Stage::Reading,
            }
        }),
{
    let s1 = s.next(Event::Report(raw));
    assert(s1.stage is Announcing);
    let s2 = s1.next(a.to(s1));
    assert(s2 == s1.go_to_rumble());
    lemma_rumble_part(s1, a);
    assert(after_round(s1, a) == after_round(s2, a));
    assert(round_actions(s1, a) == seq![Action::Announce(s1.current)] + round_actions(s2, a));
    let report = deadzone::settled(raw);
    let level = deadzone::rumble(report.left_trigger);
    let players = players_after(s.last, report, s.players);
    let c = color::report_color(report);
    let set_rumble = s.output_ok && level != s.last_rumble;
    let ok1 = s.output_ok && (set_rumble ==> a.rumble);
    let set_players = ok1 && players != s.players;
    let ok2 = ok1 && (set_players ==> a.players);
    let set_color = ok2 && color_step(c) != s.last_rgb && s.has_lightbar;
    assert(round_actions(s1, a) =~= seq![Action::Announce(report)] + only_if(
        set_rumble,
        Action::SetRumble(level),
    ) + only_if(set_players, Action::SetPlayerIndex(players)) + only_if(
        set_color,
        Action::SetLightbar { red: c.0 as u8, green: c.1 as u8, blue: c.2 as u8 },
    ));
}

/// Once something that was sent has failed, nothing is sent any more until the controller
/// is given up; only the greeting goes out in any case.
pub proof fn lemma_failed_output_ends_output(s: Session, event: Event)
    requires
        s.wf(),
        !s.output_ok,
        !(s.stage is Probing) && !(s.stage is Greeting),
    ensures
        !s.next(event).output_ok,
        !(s.next(event).stage is Probing) && !(s.next(event).stage is Greeting),
        s.next(event).pending() is Poll || s.next(event).pending() is Announce || s.next(
            event,
        ).pending() is Close || s.next(event).pending() is Finish,
{
}

/// The player number moves by at most one with each report, and not at all while the
/// directional pad is held as it was.
pub proof fn lemma_players_move_by_one(before: GamepadReport, now: GamepadReport, players: u8)
    requires
        players <= PLAYERS_MAX,
    ensures
        players_after(before, now, players) <= PLAYERS_MAX,
        -1 <= players_after(before, now, players) - players <= 1,
        now.dpad_up == before.dpad_up && now.dpad_down == before.dpad_down ==> players_after(
            before,
            now,
            players,
        ) == players,
{
}

/// A controller that was unplugged is let go; one that cannot be read for another reason is
/// first told to stop rumbling, even if output has failed before. Either way the session
/// ends.
pub proof fn lemma_read_errors_end_the_session(s: Session, e: GamepadError)
    requires
        s.stage is Reading,
    ensures
        s.next(Event::ReadError(e)).pending() == (Action::Close {
            stop_rumble: e != GamepadError::Transfer(PipeError::Disconnected),
        }),
        s.next(Event::ReadError(e)).next(Event::Done).pending() == Action::Finish,
        s.next(Event::ReadError(e)).next(Event::Failed).pending() == Action::Finish,
{
}

/// A session that is over stays over.
pub proof fn lemma_the_end_is_final(s: Session, event: Event)
    requires
        s.stage is Closed,
    ensures
        s.next(event) == s,
{
}

/// A fresh session shows player 1 first. A light bar is then made green, come what may, and
/// reading begins; whether output works is told by the player number alone.
pub proof fn lemma_how_a_session_begins(has_lightbar: bool, first: Event, second: Event)
    requires
        first == Event::Done || first == Event::Failed,
        second == Event::Done || second == Event::Failed,
    ensures
        ({
            let s = Session::fresh(has_lightbar);
            let t = s.next(first);
            let u = t.next(second);
            &&& s.pending() == Action::SetPlayerIndex(1)
            &&& t.output_ok == (first == Event::Done)
            &&& has_lightbar ==> t.pending() == (Action::SetLightbar { red: 0, green: 255, blue: 0 })
                && u.pending() == Action::Poll && u.output_ok == t.output_ok && u.last == s.last
            &&& !has_lightbar ==> t.pending() == Action::Poll
            &&& t.players == 0 && t.last_rumble == 0 && t.last == gamepad::idle_report()
            &&& t.has_lightbar == has_lightbar && u.has_lightbar == has_lightbar
        }),
{
}

/// Only what answers the pending action moves a session: reports and read errors while it
/// reads, success and failure while it acts.
pub proof fn lemma_only_answers_count(s: Session, event: Event)
    ensures
        (event is Report || event is ReadError) && s.pending() != Action::Poll ==> s.next(event) == s,
        (event is Done || event is Failed) && (s.stage is Reading || s.stage is Closed) ==> s.next(
            event,
        ) == s,
{
}

/// Two colours lie on the same step exactly when red, green and blue each lie between the
/// same multiples of 16.
pub proof fn lemma_colour_steps(c: (int, int, int), d: (int, int, int))
    requires
        0 <= c.0 <= 255 && 0 <= c.1 <= 255 && 0 <= c.2 <= 255,
        0 <= d.0 <= 255 && 0 <= d.1 <= 255 && 0 <= d.2 <= 255,
    ensures
        color_step(c) == color_step(d) <==> c.0 / 16 == d.0 / 16 && c.1 / 16 == d.1 / 16 && c.2 / 16
            == d.2 / 16,
{
}

/// What one action and three that depend on conditions make together.
proof fn lemma_parts_of_a_round(
    first: Action,
    c1: bool,
    a1: Action,
    c2: bool,
    a2: Action,
    c3: bool,
    a3: Action,
)
    ensures
        ({
            let all = seq![first] + only_if(c1, a1) + only_if(c2, a2) + only_if(c3, a3);
            &&& all.len() >= 1 && all[0] == first
            &&& c1 ==> all.contains(a1)
            &&& c2 ==> all.contains(a2)
            &&& c3 ==> all.contains(a3)
            &&& forall|i: int|
                0 <= i < all.len() ==> #[trigger] all[i] == first || c1 && all[i] == a1 || c2 && all[i]
                    == a2 || c3 && all[i] == a3
        }),
{
    let all = seq![first] + only_if(c1, a1) + only_if(c2, a2) + only_if(c3, a3);
    let n1 = only_if(c1, a1).len() as int;
    let n2 = only_if(c2, a2).len() as int;
    if c1 {
        assert(all[1] == a1);
    }
    if c2 {
        assert(all[1 + n1] == a2);
    }
    if c3 {
        assert(all[1 + n1 + n2] == a3);
    }
}

/// Everything goes well.
pub open spec fn all_well() -> Answers {
    Answers { rumble: true, players: true, color: true }
}

/// What a changed report leads to after another one, while output works: it is made known,
/// and the light bar is given the report's colour exactly when red, green or blue has moved
/// to another multiple of 16; nothing else is ever sent to the light bar.
pub proof fn lemma_light_bar_follows_the_colour(s: Session, p: GamepadReport, q: GamepadReport)
    requires
        s.stage is Reading,
        s.output_ok,
        s.has_lightbar,
        deadzone::settled(p) != s.last,
        deadzone::settled(q) != deadzone::settled(p),
    ensures
        ({
            let t = after_round(s.next(Event::Report(p)), all_well());
            let actions = round_actions(t.next(Event::Report(q)), all_well());
            let c = color::report_color(deadzone::settled(p));
            let d = color::report_color(deadzone::settled(q));
            let moved = c.0 / 16 != d.0 / 16 || c.1 / 16 != d.1 / 16 || c.2 / 16 != d.2 / 16;
            &&& actions.len() > 0 && actions[0] == Action::Announce(deadzone::settled(q))
            &&& moved ==> actions.contains(
                Action::SetLightbar { red: d.0 as u8, green: d.1 as u8, blue: d.2 as u8 },
            )
            &&& forall|i: int|
                0 <= i < actions.len() ==> (#[trigger] actions[i] is SetLightbar ==> moved
                    && actions[i] == (Action::SetLightbar {
                    red: d.0 as u8,
                    green: d.1 as u8,
                    blue: d.2 as u8,
                }))
        }),
{
    let t = after_round(s.next(Event::Report(p)), all_well());
    lemma_round(s, p, all_well());
    lemma_round(t, q, all_well());
    let (pp, qq) = (deadzone::settled(p), deadzone::settled(q));
    let c = color::report_color(pp);
    let d = color::report_color(qq);
    color::lemma_sticks_pick_the_colour(pp);
    color::lemma_sticks_pick_the_colour(qq);
    lemma_colour_steps(c, d);
    let level = deadzone::rumble(qq.left_trigger);
    let players = players_after(t.last, qq, t.players);
    lemma_parts_of_a_round(
        Action::Announce(qq),
        t.output_ok && level != t.last_rumble,
        Action::SetRumble(level),
        t.output_ok && players != t.players,
        Action::SetPlayerIndex(players),
        t.output_ok && color_step(d) != t.last_rgb && t.has_lightbar,
        Action::SetLightbar { red: d.0 as u8, green: d.1 as u8, blue: d.2 as u8 },
    );
}

/// What a changed report leads to after another one, while output works: the motors are set
/// exactly when the left trigger has moved to another multiple of 16, to the multiple that it
/// has reached, or to full strength from 240 on.
pub proof fn lemma_motors_follow_the_trigger(s: Session, p: GamepadReport, q: GamepadReport)
    requires
        s.stage is Reading,
        s.output_ok,
        deadzone::settled(p) != s.last,
        deadzone::settled(q) != deadzone::settled(p),
    ensures
        ({
            let t = after_round(s.next(Event::Report(p)), all_well());
            let actions = round_actions(t.next(Event::Report(q)), all_well());
            let before = deadzone::settled(p).left_trigger;
            let now = deadzone::settled(q).left_trigger;
            let strength = if now >= 240 {
                255
            } else {
                16 * (now / 16)
            };
            &&& before / 16 != now / 16 ==> actions.contains(Action::SetRumble(strength as u8))
            &&& forall|i: int|
                0 <= i < actions.len() ==> (#[trigger] actions[i] is SetRumble ==> before / 16 != now
                    / 16 && actions[i] == Action::SetRumble(strength as u8))
        }),
{
    let t = after_round(s.next(Event::Report(p)), all_well());
    lemma_round(s, p, all_well());
    lemma_round(t, q, all_well());
    let (pp, qq) = (deadzone::settled(p), deadzone::settled(q));
    deadzone::lemma_rumble_steps(pp.left_trigger, qq.left_trigger);
    deadzone::lemma_rumble_is_the_step_below(qq.left_trigger);
    let d = color::report_color(qq);
    let level = deadzone::rumble(qq.left_trigger);
    let players = players_after(t.last, qq, t.players);
    lemma_parts_of_a_round(
        Action::Announce(qq),
        t.output_ok && level != t.last_rumble,
        Action::SetRumble(level),
        t.output_ok && players != t.players,
        Action::SetPlayerIndex(players),
        t.output_ok && color_step(d) != t.last_rgb && t.has_lightbar,
        Action::SetLightbar { red: d.0 as u8, green: d.1 as u8, blue: d.2 as u8 },
    );
}

/// What a changed report does to the player number, while output works: up counts it up to
/// five, down counts it down to zero, each only when it was not pressed in the report before,
/// and up comes first. The new number is shown, and none is shown when it stays.
pub proof fn lemma_players_follow_the_pad(s: Session, q: GamepadReport)
    requires
        s.wf(),
        s.stage is Reading,
        s.output_ok,
        deadzone::settled(q) != s.last,
    ensures
        ({
            let begun = s.next(Event::Report(q));
            let actions = round_actions(begun, all_well());
            let players = after_round(begun, all_well()).players;
            let up = q.dpad_up && !s.last.dpad_up && s.players < 5;
            let down = q.dpad_down && !s.last.dpad_down && s.players > 0;
            &&& up ==> players == s.players + 1
            &&& !up && down ==> players == s.players - 1
            &&& !up && !down ==> players == s.players
            &&& up || down ==> actions.contains(Action::SetPlayerIndex(players))
            &&& forall|i: int|
                0 <= i < actions.len() ==> (#[trigger] actions[i] is SetPlayerIndex ==> (up || down)
                    && actions[i] == Action::SetPlayerIndex(players))
        }),
{
    lemma_round(s, q, all_well());
    let qq = deadzone::settled(q);
    deadzone::lemma_every_button_is_kept(q);
    let d = color::report_color(qq);
    let level = deadzone::rumble(qq.left_trigger);
    let players = players_after(s.last, qq, s.players);
    lemma_parts_of_a_round(
        Action::Announce(qq),
        s.output_ok && level != s.last_rumble,
        Action::SetRumble(level),
        s.output_ok && players != s.players,
        Action::SetPlayerIndex(players),
        s.output_ok && color_step(d) != s.last_rgb && s.has_lightbar,
        Action::SetLightbar { red: d.0 as u8, green: d.1 as u8, blue: d.2 as u8 },
    );
}

/// A report that went through is remembered without its jitter, and the very same report
/// again leads to nothing.
pub proof fn lemma_the_same_report_again_is_silent(s: Session, p: GamepadReport, a: Answers)
    requires
        s.stage is Reading,
        deadzone::settled(p) != s.last,
    ensures
        ({
            let t = after_round(s.next(Event::Report(p)), a);
            &&& t.last == deadzone::settled(p)
            &&& t.pending() == Action::Poll
            &&& t.next(Event::Report(p)) == t
        }),
{
    lemma_round(s, p, a);
}

/// Output works after a report exactly when it worked before and nothing that was sent
/// failed.
pub proof fn lemma_what_ends_output(s: Session, p: GamepadReport, a: Answers)
    requires
        s.stage is Reading,
        deadzone::settled(p) != s.last,
    ensures
        ({
            let begun = s.next(Event::Report(p));
            let actions = round_actions(begun, a);
            let sent_rumble = exists|i: int| 0 <= i < actions.len() && #[trigger] actions[i] is SetRumble;
            let sent_players = exists|i: int|
                0 <= i < actions.len() && #[trigger] actions[i] is SetPlayerIndex;
            let sent_color = exists|i: int|
                0 <= i < actions.len() && #[trigger] actions[i] is SetLightbar;
            after_round(begun, a).output_ok <==> s.output_ok && (sent_rumble ==> a.rumble) && (
            sent_players ==> a.players) && (sent_color ==> a.color)
        }),
{
    lemma_round(s, p, a);
    let q = deadzone::settled(p);
    let d = color::report_color(q);
    let level = deadzone::rumble(q.left_trigger);
    let players = players_after(s.last, q, s.players);
    let c1 = s.output_ok && level != s.last_rumble;
    let ok1 = s.output_ok && (c1 ==> a.rumble);
    let c2 = ok1 && players != s.players;
    let ok2 = ok1 && (c2 ==> a.players);
    let c3 = ok2 && color_step(d) != s.last_rgb && s.has_lightbar;
    let light = Action::SetLightbar { red: d.0 as u8, green: d.1 as u8, blue: d.2 as u8 };
    lemma_parts_of_a_round(
        Action::Announce(q),
        c1,
        Action::SetRumble(level),
        c2,
        Action::SetPlayerIndex(players),
        c3,
        light,
    );
    let actions = round_actions(s.next(Event::Report(p)), a);
    if c1 {
        let i = choose|i: int|
            0 <= i < actions.len() && #[trigger] actions[i] == Action::SetRumble(level);
        assert(actions[i] is SetRumble);
    }
    if c2 {
        let i = choose|i: int|
            0 <= i < actions.len() && #[trigger] actions[i] == Action::SetPlayerIndex(players);
        assert(actions[i] is SetPlayerIndex);
    }
    if c3 {
        let i = choose|i: int| 0 <= i < actions.len() && #[trigger] actions[i] == light;
        assert(actions[i] is SetLightbar);
    }
}

} // verus!
