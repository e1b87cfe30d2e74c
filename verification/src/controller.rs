//! The interaction controller: turns decoded pointer and key events into
//! scene edits and simulation-state toggles. The event source, window and
//! renderer live outside; this state machine is pure scene logic.

use vstd::prelude::*;
use crate::models::{Vec2Fx, RopePoint, Rope, dist_fx};
use crate::scene::{Scene, near_spec, first_near, purge_ropes, grid_point_spec, grid_rope_spec};
use crate::solver::{step, step_spec};
use crate::{DT_MAX, POINT_SIZE};

verus! {

/// A decoded pointer button.
#[derive(Clone, Copy, PartialEq, Eq, Structural, Debug)]
pub enum MouseButton {
    Left,
    Right,
}

/// A decoded key the simulation reacts to. The event source maps whatever
/// raw codes it has onto these (both shifts onto `Shift`; control and the
/// platform command keys onto `Ctrl`) and drops every other key.
#[derive(Clone, Copy, PartialEq, Eq, Structural, Debug)]
pub enum Key {
    Space,
    R,
    G,
    Shift,
    Ctrl,
    Escape,
}

/// A timestep from outside, saturated into the accepted range.
pub open spec fn clamp_dt_spec(dt: int) -> int {
    if dt < 0 { 0 } else if dt > DT_MAX as int { DT_MAX as int } else { dt }
}

/// Where a raw pointer coordinate lands once saturated into the box.
pub open spec fn cursor_spec(x: i64, y: i64) -> Vec2Fx {
    (Vec2Fx { x, y }).clamped_spec()
}

/// The ropes a release at `cursor` creates among the first `k` points: one
/// from the drag origin to every point within `POINT_SIZE`, in point order
/// (the origin itself included when it is near enough).
pub open spec fn link_ropes_spec(ps: Seq<RopePoint>, origin: int, cursor: Vec2Fx, k: int) -> Seq<
    Rope,
>
    decreases k,
{
    if k <= 0 {
        Seq::empty()
    } else {
        let rest = link_ropes_spec(ps, origin, cursor, k - 1);
        if near_spec(ps[k - 1].current_pos, cursor, POINT_SIZE as int) {
            rest.push(
                Rope {
                    end1: origin as usize,
                    end2: (k - 1) as usize,
                    length: dist_fx(ps[origin].current_pos, ps[k - 1].current_pos) as i64,
                },
            )
        } else {
            rest
        }
    }
}

/// The arena after a right-button release at `cursor`: every point within
/// `POINT_SIZE` has its pin flag flipped, the rest stay as they are.
pub open spec fn toggle_near_spec(ps: Seq<RopePoint>, cursor: Vec2Fx) -> Seq<RopePoint> {
    Seq::new(
        ps.len(),
        |j: int|
            if near_spec(ps[j].current_pos, cursor, POINT_SIZE as int) {
                RopePoint { locked: !ps[j].locked, ..ps[j] }
            } else {
                ps[j]
            },
    )
}

/// The whole interactive simulation: the scene, whether the solver runs,
/// the current drag origin, and the modifier/exit flags.
///
/// `mouse_down` is a plain index that may go stale when the scene is cleared
/// while the button is held; every use is therefore guarded by a bounds
/// check, and a stale drag release does nothing.
pub struct SimController {
    pub scene: Scene,
    pub simulate: bool,
    pub mouse_down: Option<usize>,
    pub shift_down: bool,
    pub ctrl_down: bool,
    pub exit_requested: bool,
}

impl SimController {
    pub open spec fn wf(self) -> bool {
        self.scene.wf()
    }

    /// A fresh controller: empty scene, paused, nothing held, no modifiers.
    pub fn new() -> (c: SimController)
        ensures
            c.wf(),
            c.scene.points@.len() == 0,
            c.scene.ropes@.len() == 0,
            !c.simulate,
            c.mouse_down is None,
            !c.shift_down,
            !c.ctrl_down,
            !c.exit_requested,
    {
        SimController {
            scene: Scene::new(),
            simulate: false,
            mouse_down: None,
            shift_down: false,
            ctrl_down: false,
            exit_requested: false,
        }
    }

    /// One-time initialisation hook; the simulation needs none.
    pub fn setup(&mut self)
        ensures
            *final(self) == *old(self),
    {
    }

    /// One frame: while running, advance the solver by the elapsed time
    /// (saturated into the accepted range); while paused, change nothing.
    pub fn update(&mut self, dt: i64)
        requires
            old(self).wf(),
        ensures
            final(self).wf(),
            final(self).simulate == old(self).simulate,
            final(self).mouse_down == old(self).mouse_down,
            final(self).shift_down == old(self).shift_down,
            final(self).ctrl_down == old(self).ctrl_down,
            final(self).exit_requested == old(self).exit_requested,
            final(self).scene.ropes@ == old(self).scene.ropes@,
            final(self).scene.points@ == if old(self).simulate {
                step_spec(old(self).scene.points@, old(self).scene.ropes@, clamp_dt_spec(dt as int))
            } else {
                old(self).scene.points@
            },
    {
        if self.simulate {
            let d = if dt < 0 { 0 } else if dt > DT_MAX { DT_MAX } else { dt };
            step(&mut self.scene, d);
        }
    }

    /// Pointer pressed: with the left button, arm a drag on the first point
    /// within twice the point radius of the cursor, if any; otherwise (and
    /// with any other button) clear the drag origin.
    pub fn mouse_button_down_event(&mut self, button: MouseButton, x: i64, y: i64)
        requires
            old(self).wf(),
        ensures
            final(self).wf(),
            final(self).scene.points@ == old(self).scene.points@,
            final(self).scene.ropes@ == old(self).scene.ropes@,
            final(self).simulate == old(self).simulate,
            final(self).shift_down == old(self).shift_down,
            final(self).ctrl_down == old(self).ctrl_down,
            final(self).exit_requested == old(self).exit_requested,
            button == MouseButton::Right ==> final(self).mouse_down is None,
            button == MouseButton::Left ==> {
                let found = first_near(
                    old(self).scene.points@,
                    cursor_spec(x, y),
                    2 * POINT_SIZE as int,
                );
                (final(self).mouse_down is Some <==> found is Some) && (final(self).mouse_down matches Some(i) ==> found == Some(i as int))
            },
    {
        let cursor = Vec2Fx::new(x, y).clamped();
        if button == MouseButton::Left {
            self.mouse_down = self.scene.find_point_near(cursor, 2 * POINT_SIZE);
        } else {
            self.mouse_down = None;
        }
    }

    /// Pointer released. With a drag origin armed: delete-mode (shift)
    /// removes the origin point and its incident ropes; otherwise, unless
    /// drag-mode (ctrl) is on, link the origin to every point within the
    /// point radius of the cursor. With no origin: a bare left release adds
    /// an unlocked point at the cursor, and a right release flips the pin of
    /// every point within the point radius. The drag origin is then cleared.
    pub fn mouse_button_up_event(&mut self, button: MouseButton, x: i64, y: i64)
        requires
            old(self).wf(),
        ensures
            final(self).wf(),
            final(self).simulate == old(self).simulate,
            final(self).shift_down == old(self).shift_down,
            final(self).ctrl_down == old(self).ctrl_down,
            final(self).exit_requested == old(self).exit_requested,
            final(self).mouse_down is None,
            match old(self).mouse_down {
                Some(i) => {
                    if old(self).shift_down {
                        if i < old(self).scene.points@.len() {
                            final(self).scene.points@ == old(self).scene.points@.remove(i as int)
                                && final(self).scene.ropes@ == purge_ropes(
                                old(self).scene.points@,
                                old(self).scene.ropes@,
                                old(self).scene.points@[i as int].current_pos,
                                i as int,
                            )
                        } else {
                            final(self).scene.points@ == old(self).scene.points@ && final(self).scene.ropes@ == old(self).scene.ropes@
                        }
                    } else if !old(self).ctrl_down {
                        if i < old(self).scene.points@.len() {
                            final(self).scene.points@ == old(self).scene.points@ && final(self).scene.ropes@ == old(self).scene.ropes@ + link_ropes_spec(
                                old(self).scene.points@,
                                i as int,
                                cursor_spec(x, y),
                                old(self).scene.points@.len() as int,
                            )
                        } else {
                            final(self).scene.points@ == old(self).scene.points@ && final(self).scene.ropes@ == old(self).scene.ropes@
                        }
                    } else {
                        final(self).scene.points@ == old(self).scene.points@ && final(self).scene.ropes@ == old(self).scene.ropes@
                    }
                },
                None => {
                    if button == MouseButton::Left && !old(self).shift_down && !old(self).ctrl_down {
                        final(self).scene.points@ == old(self).scene.points@.push(
                            RopePoint {
                                current_pos: cursor_spec(x, y),
                                prev_pos: cursor_spec(x, y),
                                locked: false,
                            },
                        ) && final(self).scene.ropes@ == old(self).scene.ropes@
                    } else if button == MouseButton::Right {
                        final(self).scene.points@ == toggle_near_spec(
                            old(self).scene.points@,
                            cursor_spec(x, y),
                        ) && final(self).scene.ropes@ == old(self).scene.ropes@
                    } else {
                        final(self).scene.points@ == old(self).scene.points@ && final(self).scene.ropes@ == old(self).scene.ropes@
                    }
                },
            },
    {
        let cursor = Vec2Fx::new(x, y).clamped();
        match self.mouse_down {
            Some(i) => {
                if self.shift_down {
                    if i < self.scene.points.len() {
                        self.scene.remove_point(i);
                    }
                } else if !self.ctrl_down {
                    if i < self.scene.points.len() {
                        let ghost ps = self.scene.points@;
                        let ghost ropes0 = self.scene.ropes@;
                        let ghost c = cursor;
                        let n = self.scene.points.len();
                        let mut j: usize = 0;
                        while j < n
                            invariant
                                self.scene.wf(),
                                self.scene.points@ == ps,
                                n == ps.len(),
                                i < n,
                                j <= n,
                                c == cursor,
                                cursor.in_bounds(),
                                self.simulate == old(self).simulate,
                                self.shift_down == old(self).shift_down,
                                self.ctrl_down == old(self).ctrl_down,
                                self.exit_requested == old(self).exit_requested,
                                self.scene.ropes@ == ropes0 + link_ropes_spec(
                                    ps,
                                    i as int,
                                    c,
                                    j as int,
                                ),
                            decreases n - j,
                        {
                            let p = self.scene.points[j].current_pos;
                            let dx = p.x - cursor.x;
                            let dy = p.y - cursor.y;
                            if -POINT_SIZE <= dx && dx <= POINT_SIZE && -POINT_SIZE <= dy && dy
                                <= POINT_SIZE {
                                self.scene.add_rope(i, j);
                            }
                            proof {
                                assert(self.scene.ropes@ =~= ropes0 + link_ropes_spec(
                                    ps,
                                    i as int,
                                    c,
                                    j + 1,
                                ));
                            }
                            j = j + 1;
                        }
                    }
                }
            },
            None => {
                if button == MouseButton::Left && !self.shift_down && !self.ctrl_down {
                    self.scene.add_point(cursor, false);
                }
                if button == MouseButton::Right {
                    let ghost ps = self.scene.points@;
                    let ghost c = cursor;
                    let n = self.scene.points.len();
                    let mut j: usize = 0;
                    while j < n
                        invariant
                            self.scene.wf(),
                            self.scene.ropes@ == old(self).scene.ropes@,
                            n == ps.len(),
                            n == self.scene.points@.len(),
                            j <= n,
                            c == cursor,
                            cursor.in_bounds(),
                            self.simulate == old(self).simulate,
                            self.shift_down == old(self).shift_down,
                            self.ctrl_down == old(self).ctrl_down,
                            self.exit_requested == old(self).exit_requested,
                            forall|k: int|
                                0 <= k < j ==> self.scene.points@[k] == toggle_near_spec(ps, c)[k],
                            forall|k: int| j <= k < n ==> self.scene.points@[k] == ps[k],
                        decreases n - j,
                    {
                        let p = self.scene.points[j].current_pos;
                        let dx = p.x - cursor.x;
                        let dy = p.y - cursor.y;
                        if -POINT_SIZE <= dx && dx <= POINT_SIZE && -POINT_SIZE <= dy && dy
                            <= POINT_SIZE {
                            self.scene.toggle_lock(j);
                        }
                        j = j + 1;
                    }
                    proof {
                        assert(self.scene.points@ =~= toggle_near_spec(ps, c));
                    }
                }
            },
        }
        self.mouse_down = None;
    }

    /// Pointer moved: while drag-mode (ctrl) is on and a drag origin is
    /// armed and still valid, the origin point follows the cursor (its
    /// current position only — the next step reads the move as a throw).
    pub fn mouse_motion_event(&mut self, x: i64, y: i64)
        requires
            old(self).wf(),
        ensures
            final(self).wf(),
            final(self).simulate == old(self).simulate,
            final(self).mouse_down == old(self).mouse_down,
            final(self).shift_down == old(self).shift_down,
            final(self).ctrl_down == old(self).ctrl_down,
            final(self).exit_requested == old(self).exit_requested,
            final(self).scene.ropes@ == old(self).scene.ropes@,
            final(self).scene.points@ == {
                match old(self).mouse_down {
                    Some(i) => if old(self).ctrl_down && i < old(self).scene.points@.len() {
                        old(self).scene.points@.update(
                            i as int,
                            RopePoint {
                                current_pos: cursor_spec(x, y),
                                ..old(self).scene.points@[i as int]
                            },
                        )
                    } else {
                        old(self).scene.points@
                    },
                    None => old(self).scene.points@,
                }
            },
    {
        match self.mouse_down {
            Some(i) => {
                if self.ctrl_down && i < self.scene.points.len() {
                    let cursor = Vec2Fx::new(x, y).clamped();
                    self.scene.set_position(i, cursor);
                }
            },
            None => {},
        }
    }

    /// Key pressed: shift arms delete-mode, ctrl (or the platform command
    /// key) arms drag-mode, and escape requests application exit; the shell
    /// outside reads `exit_requested`.
    pub fn key_down_event(&mut self, key: Key)
        ensures
            final(self).scene == old(self).scene,
            final(self).simulate == old(self).simulate,
            final(self).mouse_down == old(self).mouse_down,
            final(self).shift_down == (key == Key::Shift || old(self).shift_down),
            final(self).ctrl_down == (key == Key::Ctrl || old(self).ctrl_down),
            final(self).exit_requested == (key == Key::Escape || old(self).exit_requested),
    {
        match key {
            Key::Shift => {
                self.shift_down = true;
            },
            Key::Ctrl => {
                self.ctrl_down = true;
            },
            Key::Escape => {
                self.exit_requested = true;
            },
            _ => {},
        }
    }

    /// Key released: space toggles the simulation, R clears the scene, G
    /// stops the simulation and builds the standard grid, and releasing a
    /// modifier clears its mode.
    pub fn key_up_event(&mut self, key: Key)
        requires
            old(self).wf(),
        ensures
            final(self).wf(),
            final(self).mouse_down == old(self).mouse_down,
            final(self).exit_requested == old(self).exit_requested,
            final(self).simulate == (if key == Key::Space {
                !old(self).simulate
            } else if key == Key::G {
                false
            } else {
                old(self).simulate
            }),
            final(self).shift_down == (old(self).shift_down && key != Key::Shift),
            final(self).ctrl_down == (old(self).ctrl_down && key != Key::Ctrl),
            key == Key::R ==> final(self).scene.points@.len() == 0 && final(self).scene.ropes@.len() == 0,
            key == Key::G ==> final(self).scene.points@.len() == 676 && final(self).scene.ropes@.len() == 1250 && (forall|k: int|
                0 <= k < 676 ==> final(self).scene.points@[k] == grid_point_spec(k)) && (forall|
                m: int,
            |
                0 <= m < 1250 ==> final(self).scene.ropes@[m] == grid_rope_spec(m)),
            key != Key::R && key != Key::G ==> final(self).scene.points@ == old(self).scene.points@ && final(self).scene.ropes@ == old(self).scene.ropes@,
    {
        match key {
            Key::Space => {
                self.simulate = !self.simulate;
            },
            Key::R => {
                self.scene.clear();
            },
            Key::Shift => {
                self.shift_down = false;
            },
            Key::Ctrl => {
                self.ctrl_down = false;
            },
            Key::G => {
                self.simulate = false;
                self.scene.generate_grid();
            },
            Key::Escape => {},
        }
    }
}

} // verus!
