use cloth_sim::FX_ONE;
use cloth_sim::POINT_SIZE;
use cloth_sim::controller::{Key, MouseButton, SimController};
use cloth_sim::models::{Vec2Fx, new_point};
use cloth_sim::scene::Scene;
use cloth_sim::solver::step;

fn v(x: i64, y: i64) -> Vec2Fx {
    Vec2Fx::new(x, y)
}

fn dist_sq_of(a: Vec2Fx, b: Vec2Fx) -> i64 {
    let dx = a.x - b.x;
    let dy = a.y - b.y;
    dx * dx + dy * dy
}

#[test]
fn new_point_is_at_rest() {
    let p = new_point(v(3, -4), true);
    assert_eq!(p.current_pos, v(3, -4));
    assert_eq!(p.prev_pos, v(3, -4));
    assert!(p.locked);
}

#[test]
fn rest_length_is_euclidean_distance() {
    // A 3-4-5 triangle: the rest length is exactly five units.
    let mut s = Scene::new();
    let a = s.add_point(v(0, 0), false);
    let b = s.add_point(v(3000, 4000), false);
    s.add_rope(a, b);
    assert_eq!(s.ropes[0].end1, a);
    assert_eq!(s.ropes[0].end2, b);
    assert_eq!(s.ropes[0].length, 5000);
}

#[test]
fn rest_length_rounds_down() {
    let mut s = Scene::new();
    let a = s.add_point(v(0, 0), false);
    let b = s.add_point(v(1, 1), false);
    s.add_rope(a, b);
    // sqrt(2) rounds down to 1.
    assert_eq!(s.ropes[0].length, 1);
}

#[test]
fn self_rope_has_zero_length() {
    let mut s = Scene::new();
    let a = s.add_point(v(7, 7), false);
    s.add_rope(a, a);
    assert_eq!(s.ropes[0].length, 0);
}

#[test]
fn find_point_near_returns_first_match_in_insertion_order() {
    let mut s = Scene::new();
    s.add_point(v(100, 0), false);
    s.add_point(v(5, 0), false);
    s.add_point(v(0, 0), false);
    // Both index 1 and index 2 are within radius 10; the first wins.
    assert_eq!(s.find_point_near(v(0, 0), 10), Some(1));
    assert_eq!(s.find_point_near(v(2000, 2000), 10), None);
}

#[test]
fn step_with_zero_dt_changes_nothing_at_rest() {
    // The concrete scenario: A at the origin, B ten units right, linked.
    let mut s = Scene::new();
    let a = s.add_point(v(0, 0), false);
    let b = s.add_point(v(10 * FX_ONE, 0), false);
    s.add_rope(a, b);
    assert_eq!(s.ropes[0].length, 10 * FX_ONE);
    step(&mut s, 0);
    assert_eq!(s.points[a].current_pos, v(0, 0));
    assert_eq!(s.points[b].current_pos, v(10 * FX_ONE, 0));
    assert_eq!(s.points[a].prev_pos, v(0, 0));
    assert_eq!(s.points[b].prev_pos, v(10 * FX_ONE, 0));
}

#[test]
fn stretched_rope_relaxes_back_toward_rest_length() {
    // Continue the scenario: drag B to twenty units and step with dt > 0.
    let mut s = Scene::new();
    let a = s.add_point(v(0, 0), false);
    let b = s.add_point(v(10 * FX_ONE, 0), false);
    s.add_rope(a, b);
    step(&mut s, 0);
    s.set_position(b, v(20 * FX_ONE, 0));
    let before = dist_sq_of(s.points[a].current_pos, s.points[b].current_pos);
    assert_eq!(before, (20 * FX_ONE) * (20 * FX_ONE));
    step(&mut s, 10);
    let after = dist_sq_of(s.points[a].current_pos, s.points[b].current_pos);
    // The move is read as a throw: B keeps its velocity, then relaxation
    // pulls the pair back to the rest separation along their line.
    assert!(after < before);
    assert_eq!(after, (10 * FX_ONE) * (10 * FX_ONE));
    // Both points fell by gravity (80 * dt = 800) during the step.
    assert_eq!(s.points[a].current_pos, v(10 * FX_ONE, 800));
    assert_eq!(s.points[b].current_pos, v(20 * FX_ONE, 800));
}

#[test]
fn distance_decreases_across_successive_frames() {
    // A rope stretched by a sideways throw keeps contracting frame after
    // frame while it stays longer than its rest length.
    let mut s = Scene::new();
    let a = s.add_point(v(0, 0), false);
    let b = s.add_point(v(1000, 0), false);
    s.add_rope(a, b);
    // Stretch to five times the rest length.
    s.set_position(b, v(5000, 0));
    let mut last = dist_sq_of(s.points[a].current_pos, s.points[b].current_pos);
    for _ in 0..3 {
        step(&mut s, 0);
        let now = dist_sq_of(s.points[a].current_pos, s.points[b].current_pos);
        assert!(now <= last);
        last = now;
    }
    // Well inside the rounding band of the rest length by now.
    assert!(last <= 1002 * 1002);
}

#[test]
fn coincident_endpoints_use_the_horizontal_fallback() {
    let mut s = Scene::new();
    let a = s.add_point(v(0, 0), false);
    let b = s.add_point(v(10000, 0), false);
    s.add_rope(a, b);
    // Pin B on top of A: the rope's endpoints coincide, so the relaxation
    // direction is undefined and the fixed horizontal fallback takes over.
    s.toggle_lock(b);
    s.set_position(b, v(0, 0));
    step(&mut s, 0);
    // A is pushed out horizontally (never NaN-like garbage), closing in on
    // the rest length over the four sweeps; B stays pinned.
    assert_eq!(s.points[a].current_pos, v(9375, 0));
    assert_eq!(s.points[b].current_pos, v(0, 0));
}

#[test]
fn locked_points_never_move() {
    let mut s = Scene::new();
    let pin = s.add_point(v(0, 0), true);
    let free = s.add_point(v(0, 3000), false);
    s.add_rope(pin, free);
    for _ in 0..10 {
        step(&mut s, 16);
    }
    assert_eq!(s.points[pin].current_pos, v(0, 0));
    assert_eq!(s.points[pin].prev_pos, v(0, 0));
    assert!(s.points[free].current_pos != v(0, 3000));
}

#[test]
fn unlocked_points_fall_under_gravity() {
    let mut s = Scene::new();
    let a = s.add_point(v(0, 0), false);
    step(&mut s, 100);
    // 80 * dt = 8000 downward; the previous position records the old spot.
    assert_eq!(s.points[a].current_pos, v(0, 8000));
    assert_eq!(s.points[a].prev_pos, v(0, 0));
    step(&mut s, 100);
    // Velocity from the first step carries over and gravity adds again.
    assert_eq!(s.points[a].current_pos, v(0, 24000));
    assert_eq!(s.points[a].prev_pos, v(0, 8000));
}

#[test]
fn steps_are_deterministic() {
    let build = || {
        let mut s = Scene::new();
        let a = s.add_point(v(0, 0), true);
        let b = s.add_point(v(40000, 1000), false);
        let c = s.add_point(v(80000, -2000), false);
        s.add_rope(a, b);
        s.add_rope(b, c);
        s
    };
    let mut s1 = build();
    let mut s2 = build();
    for _ in 0..50 {
        step(&mut s1, 16);
        step(&mut s2, 16);
    }
    assert_eq!(s1.points.len(), s2.points.len());
    for i in 0..s1.points.len() {
        assert_eq!(s1.points[i], s2.points[i]);
    }
}

#[test]
fn remove_point_purges_incident_ropes_and_reindexes() {
    let mut s = Scene::new();
    let a = s.add_point(v(0, 0), false);
    let b = s.add_point(v(30000, 0), false);
    let c = s.add_point(v(60000, 0), false);
    s.add_rope(a, b);
    s.add_rope(b, c);
    s.add_rope(a, c);
    s.remove_point(b);
    // Exactly the two ropes incident to B are gone.
    assert_eq!(s.points.len(), 2);
    assert_eq!(s.ropes.len(), 1);
    // The survivor now links indices 0 and 1 (C slid down by one).
    assert_eq!(s.ropes[0].end1, 0);
    assert_eq!(s.ropes[0].end2, 1);
    assert_eq!(s.points[1].current_pos, v(60000, 0));
    // No remaining rope touches B's former position.
    for r in &s.ropes {
        assert!(s.points[r.end1].current_pos != v(30000, 0));
        assert!(s.points[r.end2].current_pos != v(30000, 0));
    }
}

#[test]
fn remove_point_conflates_coincident_points_by_position() {
    // Two distinct points on the same spot: removing one also purges ropes
    // held by the other: position-based identity, as documented on removal.
    let mut s = Scene::new();
    let a = s.add_point(v(0, 0), false);
    let b = s.add_point(v(0, 0), false);
    let c = s.add_point(v(50000, 0), false);
    s.add_rope(b, c);
    s.remove_point(a);
    assert_eq!(s.points.len(), 2);
    assert_eq!(s.ropes.len(), 0);
}

#[test]
fn toggle_lock_flips_only_the_flag() {
    let mut s = Scene::new();
    let a = s.add_point(v(1, 2), false);
    s.toggle_lock(a);
    assert!(s.points[a].locked);
    assert_eq!(s.points[a].current_pos, v(1, 2));
    s.toggle_lock(a);
    assert!(!s.points[a].locked);
}

#[test]
fn set_position_leaves_prev_pos_untouched() {
    let mut s = Scene::new();
    let a = s.add_point(v(5, 5), false);
    s.set_position(a, v(9000, -9000));
    assert_eq!(s.points[a].current_pos, v(9000, -9000));
    assert_eq!(s.points[a].prev_pos, v(5, 5));
}

#[test]
fn clear_empties_the_scene() {
    let mut s = Scene::new();
    let a = s.add_point(v(0, 0), false);
    let b = s.add_point(v(100, 0), false);
    s.add_rope(a, b);
    s.clear();
    assert_eq!(s.points.len(), 0);
    assert_eq!(s.ropes.len(), 0);
}

#[test]
fn grid_has_676_points_with_top_row_locked_and_1250_ropes() {
    let mut s = Scene::new();
    s.generate_grid();
    assert_eq!(s.points.len(), 26 * 26);
    assert_eq!(s.points.len(), 676);
    assert_eq!(s.ropes.len(), 2 * 25 * 25);
    assert_eq!(s.ropes.len(), 1250);
    for (i, p) in s.points.iter().enumerate() {
        assert_eq!(p.locked, i < 26);
    }
}

#[test]
fn grid_points_sit_on_the_step_lattice() {
    let mut s = Scene::new();
    s.generate_grid();
    let stp = 5 * POINT_SIZE;
    // Row-major: index = col + row * 26, offset one step from the origin.
    assert_eq!(s.points[0].current_pos, v(stp, stp));
    assert_eq!(s.points[1].current_pos, v(2 * stp, stp));
    assert_eq!(s.points[26].current_pos, v(stp, 2 * stp));
    assert_eq!(s.points[675].current_pos, v(26 * stp, 26 * stp));
    // Every rope spans exactly one lattice step.
    for r in &s.ropes {
        assert_eq!(r.length, stp);
        let d = dist_sq_of(s.points[r.end1].current_pos, s.points[r.end2].current_pos);
        assert_eq!(d, stp * stp);
    }
}

#[test]
fn grid_mesh_links_each_interior_cell_to_its_two_neighbours() {
    let mut s = Scene::new();
    s.generate_grid();
    // The first interior cell links point 0 down to 26, then right to 1.
    assert_eq!((s.ropes[0].end1, s.ropes[0].end2), (0, 26));
    assert_eq!((s.ropes[1].end1, s.ropes[1].end2), (0, 1));
}

#[test]
fn left_release_on_empty_space_adds_an_unlocked_point() {
    let mut c = SimController::new();
    c.mouse_button_up_event(MouseButton::Left, 500, 600);
    assert_eq!(c.scene.points.len(), 1);
    assert_eq!(c.scene.points[0].current_pos, v(500, 600));
    assert!(!c.scene.points[0].locked);
}

#[test]
fn modified_left_release_adds_no_point() {
    let mut c = SimController::new();
    c.key_down_event(Key::Shift);
    c.mouse_button_up_event(MouseButton::Left, 0, 0);
    assert_eq!(c.scene.points.len(), 0);
    c.key_up_event(Key::Shift);
    c.key_down_event(Key::Ctrl);
    c.mouse_button_up_event(MouseButton::Left, 0, 0);
    assert_eq!(c.scene.points.len(), 0);
}

#[test]
fn right_release_toggles_lock_of_every_nearby_point() {
    let mut c = SimController::new();
    c.scene.add_point(v(0, 0), false);
    c.scene.add_point(v(POINT_SIZE, 0), false);
    c.scene.add_point(v(3 * POINT_SIZE, 0), false);
    c.mouse_button_up_event(MouseButton::Right, 0, 0);
    assert!(c.scene.points[0].locked);
    assert!(c.scene.points[1].locked);
    assert!(!c.scene.points[2].locked);
}

#[test]
fn press_near_a_point_arms_the_drag_origin() {
    let mut c = SimController::new();
    c.scene.add_point(v(0, 0), false);
    c.scene.add_point(v(100000, 0), false);
    c.mouse_button_down_event(MouseButton::Left, 2 * POINT_SIZE, 0);
    assert_eq!(c.mouse_down, Some(0));
    c.mouse_button_down_event(MouseButton::Left, 50000, 50000);
    assert_eq!(c.mouse_down, None);
    c.mouse_button_down_event(MouseButton::Right, 0, 0);
    assert_eq!(c.mouse_down, None);
}

#[test]
fn release_links_origin_to_every_point_near_the_cursor() {
    let mut c = SimController::new();
    c.scene.add_point(v(0, 0), false);
    c.scene.add_point(v(100000, 0), false);
    c.scene.add_point(v(100000 + POINT_SIZE, 0), false);
    c.mouse_button_down_event(MouseButton::Left, 0, 0);
    c.mouse_button_up_event(MouseButton::Left, 100000, 0);
    // Two points sit within POINT_SIZE of the release spot.
    assert_eq!(c.scene.ropes.len(), 2);
    assert_eq!((c.scene.ropes[0].end1, c.scene.ropes[0].end2), (0, 1));
    assert_eq!((c.scene.ropes[1].end1, c.scene.ropes[1].end2), (0, 2));
    assert_eq!(c.scene.ropes[0].length, 100000);
    assert!(c.mouse_down.is_none());
}

#[test]
fn release_on_the_origin_makes_a_self_rope() {
    let mut c = SimController::new();
    c.scene.add_point(v(0, 0), false);
    c.mouse_button_down_event(MouseButton::Left, 0, 0);
    c.mouse_button_up_event(MouseButton::Left, 0, 0);
    assert_eq!(c.scene.ropes.len(), 1);
    assert_eq!((c.scene.ropes[0].end1, c.scene.ropes[0].end2), (0, 0));
    assert_eq!(c.scene.ropes[0].length, 0);
}

#[test]
fn shift_release_deletes_the_origin_point_and_its_ropes() {
    let mut c = SimController::new();
    c.scene.add_point(v(0, 0), false);
    c.scene.add_point(v(40000, 0), false);
    c.scene.add_rope(0, 1);
    c.key_down_event(Key::Shift);
    c.mouse_button_down_event(MouseButton::Left, 0, 0);
    c.mouse_button_up_event(MouseButton::Left, 0, 0);
    assert_eq!(c.scene.points.len(), 1);
    assert_eq!(c.scene.ropes.len(), 0);
    assert_eq!(c.scene.points[0].current_pos, v(40000, 0));
}

#[test]
fn ctrl_release_creates_no_ropes() {
    let mut c = SimController::new();
    c.scene.add_point(v(0, 0), false);
    c.scene.add_point(v(5000, 0), false);
    c.key_down_event(Key::Ctrl);
    c.mouse_button_down_event(MouseButton::Left, 0, 0);
    c.mouse_button_up_event(MouseButton::Left, 5000, 0);
    assert_eq!(c.scene.ropes.len(), 0);
}

#[test]
fn ctrl_drag_moves_the_origin_point_without_touching_prev_pos() {
    let mut c = SimController::new();
    c.scene.add_point(v(0, 0), false);
    c.key_down_event(Key::Ctrl);
    c.mouse_button_down_event(MouseButton::Left, 0, 0);
    c.mouse_motion_event(7000, 8000);
    assert_eq!(c.scene.points[0].current_pos, v(7000, 8000));
    assert_eq!(c.scene.points[0].prev_pos, v(0, 0));
}

#[test]
fn motion_without_ctrl_or_origin_moves_nothing() {
    let mut c = SimController::new();
    c.scene.add_point(v(0, 0), false);
    c.mouse_button_down_event(MouseButton::Left, 0, 0);
    c.mouse_motion_event(7000, 8000);
    assert_eq!(c.scene.points[0].current_pos, v(0, 0));
    c.key_down_event(Key::Ctrl);
    c.mouse_button_up_event(MouseButton::Left, 0, 0);
    c.mouse_motion_event(9000, 9000);
    assert_eq!(c.scene.points[0].current_pos, v(0, 0));
}

#[test]
fn space_toggles_the_simulation_and_update_respects_it() {
    let mut c = SimController::new();
    c.scene.add_point(v(0, 0), false);
    c.update(100);
    assert_eq!(c.scene.points[0].current_pos, v(0, 0));
    c.key_up_event(Key::Space);
    assert!(c.simulate);
    c.update(100);
    assert_eq!(c.scene.points[0].current_pos, v(0, 8000));
    c.key_up_event(Key::Space);
    assert!(!c.simulate);
}

#[test]
fn r_clears_the_scene_but_keeps_the_run_flag() {
    let mut c = SimController::new();
    c.scene.add_point(v(0, 0), false);
    c.key_up_event(Key::Space);
    c.key_up_event(Key::R);
    assert_eq!(c.scene.points.len(), 0);
    assert_eq!(c.scene.ropes.len(), 0);
    assert!(c.simulate);
}

#[test]
fn g_stops_the_simulation_and_builds_the_grid() {
    let mut c = SimController::new();
    c.key_up_event(Key::Space);
    c.key_up_event(Key::G);
    assert!(!c.simulate);
    assert_eq!(c.scene.points.len(), 676);
    assert_eq!(c.scene.ropes.len(), 1250);
}

#[test]
fn modifier_releases_clear_their_modes() {
    let mut c = SimController::new();
    c.key_down_event(Key::Shift);
    c.key_down_event(Key::Ctrl);
    assert!(c.shift_down && c.ctrl_down);
    c.key_up_event(Key::Shift);
    assert!(!c.shift_down && c.ctrl_down);
    c.key_up_event(Key::Ctrl);
    assert!(!c.shift_down && !c.ctrl_down);
}

#[test]
fn escape_requests_exit() {
    let mut c = SimController::new();
    assert!(!c.exit_requested);
    c.key_down_event(Key::Escape);
    assert!(c.exit_requested);
}

#[test]
fn stale_drag_origin_after_clear_is_ignored() {
    let mut c = SimController::new();
    c.scene.add_point(v(0, 0), false);
    c.mouse_button_down_event(MouseButton::Left, 0, 0);
    c.key_up_event(Key::R);
    c.key_down_event(Key::Shift);
    // The armed index is stale; the release must do nothing and not panic.
    c.mouse_button_up_event(MouseButton::Left, 0, 0);
    assert_eq!(c.scene.points.len(), 0);
    assert!(c.mouse_down.is_none());
}

#[test]
fn controller_runs_are_deterministic() {
    let run = || {
        let mut c = SimController::new();
        c.key_up_event(Key::G);
        c.key_up_event(Key::Space);
        for _ in 0..5 {
            c.update(16);
        }
        c.mouse_button_down_event(MouseButton::Left, 50000, 50000);
        c.key_down_event(Key::Ctrl);
        c.mouse_motion_event(90000, 90000);
        c.key_up_event(Key::Ctrl);
        c.mouse_button_up_event(MouseButton::Left, 90000, 90000);
        for _ in 0..5 {
            c.update(16);
        }
        c
    };
    let c1 = run();
    let c2 = run();
    assert_eq!(c1.scene.points.len(), c2.scene.points.len());
    assert_eq!(c1.scene.ropes.len(), c2.scene.ropes.len());
    for i in 0..c1.scene.points.len() {
        assert_eq!(c1.scene.points[i], c2.scene.points[i]);
    }
    for i in 0..c1.scene.ropes.len() {
        assert_eq!(c1.scene.ropes[i], c2.scene.ropes[i]);
    }
}

#[test]
fn setup_changes_nothing() {
    let mut c = SimController::new();
    c.scene.add_point(v(1, 1), true);
    c.setup();
    assert_eq!(c.scene.points.len(), 1);
    assert_eq!(c.scene.points[0].current_pos, v(1, 1));
    assert!(!c.simulate);
}
