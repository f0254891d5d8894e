use bubbles::bubble::Bubble;
use bubbles::budget::{BudgetEvent, SpawnBudget, BUBBLES_NUMBER};
use bubbles::fixed::ONE;
use bubbles::game::Game;
use bubbles::input::{handle_mouse, ButtonState, MouseButton, MouseButtonInput};
use bubbles::registry::Registry;
use bubbles::screen::{window_to_world, Camera, Vector, Window};
use bubbles::spawner::{
    draw, place, spawn_bubble, Candidate, Color, BUBBLE_MAX_DIAMETER, BUBBLE_MAX_VELOCITY,
    BUBBLE_MIN_DIAMETER, BUBBLE_MIN_VELOCITY,
};

fn bubble(x: i64, y: i64, radius: i64, vx: i64, vy: i64, mass: i64) -> Bubble {
    Bubble::new(Vector { x, y }, radius, Vector { x: vx, y: vy }, mass).unwrap()
}

fn window() -> Window {
    Window::new(800 * ONE, 600 * ONE).unwrap()
}

fn camera() -> Camera {
    Camera { translation: Vector { x: 0, y: 0 }, scale: Vector { x: ONE, y: ONE } }
}

fn press(button: MouseButton, position: Option<Vector>) -> MouseButtonInput {
    MouseButtonInput { button, state: ButtonState::Pressed, position }
}

fn candidate(x: i64, y: i64, diameter: i64) -> Candidate {
    Candidate {
        color: Color { red: 1, green: 2, blue: 3 },
        position: Vector { x, y },
        diameter,
        velocity: Vector { x: 5 * ONE, y: -5 * ONE },
    }
}

#[test]
fn budget_counts_down_and_stops_at_zero() {
    let mut budget = SpawnBudget::new(2).unwrap();
    assert!(budget.run_if_more_bubbles_possible());
    budget.spend();
    assert_eq!(budget.count, 1);
    budget.spend();
    assert_eq!(budget.count, 0);
    assert!(!budget.run_if_more_bubbles_possible());
    budget.spend();
    assert_eq!(budget.count, 0);
    assert_eq!(budget.target, 2);
    assert_eq!(SpawnBudget::new(-1), None);
    assert_eq!(SpawnBudget::new(0), Some(SpawnBudget { count: 0, target: 0 }));
}

#[test]
fn budget_never_negative_over_events() {
    let mut budget = SpawnBudget::new(3).unwrap();
    let events = [
        BudgetEvent::Spawn,
        BudgetEvent::Spawn,
        BudgetEvent::Spawn,
        BudgetEvent::Spawn,
        BudgetEvent::Spawn,
        BudgetEvent::Reset,
        BudgetEvent::Spawn,
        BudgetEvent::Reset,
        BudgetEvent::Reset,
        BudgetEvent::Spawn,
        BudgetEvent::Spawn,
        BudgetEvent::Spawn,
        BudgetEvent::Spawn,
    ];
    let expected = [2, 1, 0, 0, 0, 3, 2, 3, 3, 2, 1, 0, 0];
    for (event, count) in events.iter().zip(expected.iter()) {
        budget.apply(*event);
        assert_eq!(budget.count, *count);
        assert!(0 <= budget.count && budget.count <= budget.target);
    }
}

#[test]
fn round_resets_once() {
    let mut budget = SpawnBudget { count: 0, target: 10 };
    assert!(!budget.end_round(false));
    assert_eq!(budget.count, 0);
    assert!(budget.end_round(true));
    assert_eq!(budget.count, 10);
    assert!(!budget.end_round(true));
    assert_eq!(budget.count, 10);
    assert!(!budget.end_round(true));
    assert_eq!(budget.count, 10);
    budget.reset_game();
    assert_eq!(budget, SpawnBudget { count: 10, target: 10 });
}

#[test]
fn registry_gives_fresh_handles() {
    let mut registry = Registry::new();
    assert!(registry.run_if_no_bubbles());
    assert_eq!(registry.len(), 0);
    assert_eq!(registry.get(0), None);
    let a = bubble(0, 0, ONE, 0, 0, ONE);
    let b = bubble(10 * ONE, 0, ONE, 0, 0, ONE);
    assert_eq!(registry.insert(a), Some(0));
    assert_eq!(registry.insert(b), Some(1));
    assert!(!registry.run_if_no_bubbles());
    assert_eq!(registry.len(), 2);
    assert_eq!(registry.get(1).unwrap().bubble, b);
    assert_eq!(registry.pop_at(&Vector { x: 0, y: 0 }), vec![0]);
    assert_eq!(registry.insert(a), Some(2));
    assert_eq!(registry.get(0).unwrap().id, 1);
    assert_eq!(registry.get(1).unwrap().id, 2);
    assert_eq!(registry.get(2), None);
}

#[test]
fn click_pops_only_the_bubble_under_it() {
    let mut registry = Registry::new();
    registry.insert(bubble(0, 0, 50 * ONE, 0, 0, ONE));
    registry.insert(bubble(1000 * ONE, 1000 * ONE, 50 * ONE, 0, 0, ONE));
    let events = vec![press(MouseButton::Left, Some(Vector { x: 400 * ONE, y: 300 * ONE }))];
    let report = handle_mouse(&mut registry, &events, &window(), &camera());
    assert_eq!(report.popped, vec![0]);
    assert_eq!(report.popped.len(), 1);
    assert_eq!(report.unresolved, 0);
    assert_eq!(registry.len(), 1);
    assert_eq!(registry.get(0).unwrap().id, 1);
    assert_eq!(registry.get(0).unwrap().bubble.position, Vector { x: 1000 * ONE, y: 1000 * ONE });
}

#[test]
fn click_pops_every_bubble_under_it() {
    let mut registry = Registry::new();
    registry.insert(bubble(0, 0, 50 * ONE, 0, 0, ONE));
    registry.insert(bubble(500 * ONE, 0, 50 * ONE, 0, 0, ONE));
    registry.insert(bubble(10 * ONE, 10 * ONE, 50 * ONE, 0, 0, ONE));
    let popped = registry.pop_at(&Vector { x: 5 * ONE, y: 5 * ONE });
    assert_eq!(popped, vec![0, 2]);
    assert_eq!(registry.len(), 1);
    assert_eq!(registry.get(0).unwrap().id, 1);
    assert_eq!(registry.pop_at(&Vector { x: 5 * ONE, y: 5 * ONE }), Vec::<u64>::new());
}

#[test]
fn only_left_presses_inside_the_window_count() {
    let mut registry = Registry::new();
    registry.insert(bubble(0, 0, 50 * ONE, 0, 0, ONE));
    registry.insert(bubble(200 * ONE, 0, 50 * ONE, 0, 0, ONE));
    let centre = Some(Vector { x: 400 * ONE, y: 300 * ONE });
    let events = vec![
        press(MouseButton::Right, centre),
        press(MouseButton::Middle, centre),
        press(MouseButton::Other(7), centre),
        MouseButtonInput { button: MouseButton::Left, state: ButtonState::Released, position: centre },
        press(MouseButton::Left, None),
        press(MouseButton::Right, None),
    ];
    let report = handle_mouse(&mut registry, &events, &window(), &camera());
    assert_eq!(report.popped, Vec::<u64>::new());
    assert_eq!(report.unresolved, 1);
    assert_eq!(registry.len(), 2);
    let events = vec![
        press(MouseButton::Left, Some(Vector { x: 600 * ONE, y: 300 * ONE })),
        press(MouseButton::Left, centre),
        press(MouseButton::Left, centre),
    ];
    let report = handle_mouse(&mut registry, &events, &window(), &camera());
    assert_eq!(report.popped, vec![1, 0]);
    assert_eq!(report.unresolved, 0);
    assert!(registry.run_if_no_bubbles());
}

#[test]
fn pixels_map_to_the_world_with_a_vertical_flip() {
    let w = window();
    let c = camera();
    assert_eq!(window_to_world(&w, &c, &Vector { x: 0, y: 0 }), Some(Vector { x: -400 * ONE, y: 300 * ONE }));
    assert_eq!(window_to_world(&w, &c, &Vector { x: 400 * ONE, y: 300 * ONE }), Some(Vector { x: 0, y: 0 }));
    assert_eq!(
        window_to_world(&w, &c, &Vector { x: 800 * ONE, y: 600 * ONE }),
        Some(Vector { x: 400 * ONE, y: -300 * ONE })
    );
    let moved = Camera { translation: Vector { x: 10 * ONE, y: -20 * ONE }, scale: Vector { x: 2 * ONE, y: ONE / 2 } };
    assert_eq!(
        window_to_world(&w, &moved, &Vector { x: 100 * ONE, y: 100 * ONE }),
        Some(Vector { x: -590 * ONE, y: 120 * ONE })
    );
    let huge = Camera { translation: Vector { x: 0, y: 0 }, scale: Vector { x: i64::MAX, y: ONE } };
    assert_eq!(window_to_world(&w, &huge, &Vector { x: 0, y: 0 }), None);
}

#[test]
fn click_that_maps_nowhere_is_reported() {
    let mut registry = Registry::new();
    registry.insert(bubble(0, 0, 50 * ONE, 0, 0, ONE));
    let huge = Camera { translation: Vector { x: 0, y: 0 }, scale: Vector { x: i64::MAX, y: ONE } };
    let events = vec![press(MouseButton::Left, Some(Vector { x: 0, y: 0 }))];
    let report = handle_mouse(&mut registry, &events, &window(), &huge);
    assert_eq!(report.unresolved, 1);
    assert_eq!(registry.len(), 1);
}

#[test]
fn move_bubbles_moves_each_and_keeps_handles() {
    let mut registry = Registry::new();
    registry.insert(bubble(0, 0, ONE, 10 * ONE, 0, ONE));
    registry.insert(bubble(399 * ONE, 0, ONE, 10 * ONE, 20 * ONE, ONE));
    registry.move_bubbles(ONE / 2, &window());
    let first = registry.get(0).unwrap();
    let second = registry.get(1).unwrap();
    assert_eq!(first.id, 0);
    assert_eq!(first.bubble.position, Vector { x: 5 * ONE, y: 0 });
    assert_eq!(first.bubble.velocity, Vector { x: 10 * ONE, y: 0 });
    assert_eq!(second.id, 1);
    assert_eq!(second.bubble.position, Vector { x: 404 * ONE, y: 10 * ONE });
    assert_eq!(second.bubble.velocity, Vector { x: -10 * ONE, y: 20 * ONE });
}

#[test]
fn check_collision_takes_pairs_in_order() {
    let mut registry = Registry::new();
    registry.insert(bubble(0, 0, 5 * ONE, 6 * ONE, 0, ONE));
    registry.insert(bubble(8 * ONE, 0, 5 * ONE, 0, 0, ONE));
    registry.insert(bubble(100 * ONE, 0, 5 * ONE, 0, 3 * ONE, ONE));
    registry.check_collision();
    let a = registry.get(0).unwrap().bubble;
    let b = registry.get(1).unwrap().bubble;
    let c = registry.get(2).unwrap().bubble;
    assert_eq!(a.velocity, Vector { x: 0, y: 0 });
    assert_eq!(b.velocity, Vector { x: 6 * ONE, y: 0 });
    assert_eq!(a.position, Vector { x: -ONE, y: 0 });
    assert_eq!(b.position, Vector { x: 9 * ONE, y: 0 });
    assert_eq!(c, bubble(100 * ONE, 0, 5 * ONE, 0, 3 * ONE, ONE));
    assert_eq!(registry.len(), 3);
}

#[test]
fn check_collision_uses_what_earlier_pairs_left() {
    let mut registry = Registry::new();
    registry.insert(bubble(0, 0, 5 * ONE, 4 * ONE, 0, ONE));
    registry.insert(bubble(8 * ONE, 0, 5 * ONE, 0, 0, ONE));
    registry.insert(bubble(4 * ONE, 0, 5 * ONE, 0, 0, ONE));
    registry.check_collision();
    let a = registry.get(0).unwrap().bubble;
    let b = registry.get(1).unwrap().bubble;
    let c = registry.get(2).unwrap().bubble;
    // pair (0, 1): velocities swap, centres move to -1 and 9
    // pair (0, 2): centres 5 apart; the first bubble is at rest now, nothing to exchange
    // pair (1, 2): the second bubble hands its velocity on to the third
    assert_eq!(a.velocity, Vector { x: 0, y: 0 });
    assert_eq!(b.velocity, Vector { x: 0, y: 0 });
    assert_eq!(c.velocity, Vector { x: 4 * ONE, y: 0 });
    assert_eq!(a.position.x, -ONE - 5 * ONE / 2);
    assert_eq!(registry.get(0).unwrap().id, 0);
    assert_eq!(registry.get(1).unwrap().id, 1);
    assert_eq!(registry.get(2).unwrap().id, 2);
}

#[test]
fn overlapping_candidate_is_dropped() {
    let mut registry = Registry::new();
    let mut budget = SpawnBudget::new(5).unwrap();
    let first = place(&mut registry, &mut budget, &candidate(0, 0, 100 * ONE)).unwrap();
    assert_eq!(first.id, 0);
    assert_eq!(first.color, Color { red: 1, green: 2, blue: 3 });
    assert_eq!(first.bubble.radius, 50 * ONE);
    assert_eq!(first.bubble.mass, 2500 * bubbles::fixed::PI);
    assert_eq!(first.bubble.velocity, Vector { x: 5 * ONE, y: -5 * ONE });
    assert_eq!(budget.count, 4);
    assert_eq!(registry.len(), 1);
    assert_eq!(place(&mut registry, &mut budget, &candidate(99 * ONE, 0, 100 * ONE)), None);
    assert_eq!(place(&mut registry, &mut budget, &candidate(0, 0, 200 * ONE)), None);
    assert_eq!(budget.count, 4);
    assert_eq!(registry.len(), 1);
    let second = place(&mut registry, &mut budget, &candidate(100 * ONE, 0, 100 * ONE)).unwrap();
    assert_eq!(second.id, 1);
    assert_eq!(budget.count, 3);
    assert_eq!(registry.len(), 2);
    assert_eq!(registry.get(1).unwrap().bubble, second.bubble);
}

#[test]
fn candidate_without_a_body_is_dropped() {
    let mut registry = Registry::new();
    let mut budget = SpawnBudget::new(5).unwrap();
    assert_eq!(place(&mut registry, &mut budget, &candidate(0, 0, 0)), None);
    assert_eq!(place(&mut registry, &mut budget, &candidate(0, 0, -4)), None);
    assert_eq!(place(&mut registry, &mut budget, &candidate(0, 0, 1)), None);
    assert_eq!(place(&mut registry, &mut budget, &candidate(0, 0, 2)), None);
    assert_eq!(place(&mut registry, &mut budget, &candidate(i64::MAX, 0, 100 * ONE)), None);
    assert_eq!(place(&mut registry, &mut budget, &candidate(0, 0, i64::MAX)), None);
    assert_eq!(candidate(0, 0, 2).to_bubble(), None);
    assert!(candidate(0, 0, 100 * ONE).to_bubble().is_some());
    assert_eq!(budget.count, 5);
    assert_eq!(registry.len(), 0);
}

#[test]
fn placing_at_zero_budget_keeps_it_at_zero() {
    let mut registry = Registry::new();
    let mut budget = SpawnBudget::new(0).unwrap();
    assert!(place(&mut registry, &mut budget, &candidate(0, 0, 100 * ONE)).is_some());
    assert_eq!(budget.count, 0);
}

#[test]
fn draws_stay_in_their_ranges() {
    let w = window();
    let mut reds = Vec::new();
    let mut xs = Vec::new();
    for _ in 0..500 {
        let c = draw(&w);
        assert!(0 <= c.color.red && c.color.red < ONE);
        assert!(0 <= c.color.green && c.color.green < ONE);
        assert!(0 <= c.color.blue && c.color.blue < ONE);
        assert!(-400 * ONE <= c.position.x && c.position.x < 400 * ONE);
        assert!(-300 * ONE <= c.position.y && c.position.y < 300 * ONE);
        assert!(BUBBLE_MIN_DIAMETER <= c.diameter && c.diameter < BUBBLE_MAX_DIAMETER);
        assert!(BUBBLE_MIN_VELOCITY <= c.velocity.x && c.velocity.x < BUBBLE_MAX_VELOCITY);
        assert!(BUBBLE_MIN_VELOCITY <= c.velocity.y && c.velocity.y < BUBBLE_MAX_VELOCITY);
        assert!(c.to_bubble().is_some());
        reds.push(c.color.red);
        xs.push(c.position.x);
    }
    assert!(reds.iter().any(|r| *r != 0));
    assert!(xs.iter().any(|x| *x != -400 * ONE));
    assert!(xs.iter().any(|x| *x != xs[0]));
}

#[test]
fn spawn_bubble_places_or_leaves_everything() {
    let w = window();
    let mut registry = Registry::new();
    let mut budget = SpawnBudget::new(BUBBLES_NUMBER).unwrap();
    for _ in 0..200 {
        let before_len = registry.len();
        let before_count = budget.count;
        match spawn_bubble(&mut registry, &mut budget, &w) {
            Some(placed) => {
                assert_eq!(registry.len(), before_len + 1);
                assert_eq!(budget.count, if before_count > 0 { before_count - 1 } else { 0 });
                let entry = registry.get(before_len).unwrap();
                assert_eq!(entry.id, placed.id);
                assert_eq!(entry.bubble, placed.bubble);
                assert_eq!(Bubble::mass_of(placed.bubble.radius), Some(placed.bubble.mass));
                for k in 0..before_len {
                    assert!(!registry.get(k).unwrap().bubble.touches(&placed.bubble));
                }
            }
            None => {
                assert_eq!(registry.len(), before_len);
                assert_eq!(budget.count, before_count);
            }
        }
    }
    assert!(registry.len() >= 1);
    assert_eq!(budget.count, if registry.len() >= 10 { 0 } else { 10 - registry.len() as i32 });
}

#[test]
fn a_game_runs_its_stages_in_order() {
    let w = window();
    let c = camera();
    let mut game = Game::setup();
    assert_eq!(game.budget, SpawnBudget { count: 10, target: 10 });
    assert!(game.registry.run_if_no_bubbles());
    let report = game.tick(&Vec::new(), &w, &c, ONE / 60);
    let placed = report.spawned.unwrap();
    assert_eq!(placed.id, 0);
    assert!(!report.reset);
    assert_eq!(report.popped, Vec::<u64>::new());
    assert_eq!(game.budget.count, 9);
    assert_eq!(game.registry.len(), 1);
    let moved = placed.bubble.advance(ONE / 60, &w).unwrap();
    assert_eq!(game.registry.get(0).unwrap().bubble, moved);
}

#[test]
fn popping_the_last_bubble_starts_a_new_round() {
    let w = window();
    let c = camera();
    let mut game = Game::setup();
    game.budget = SpawnBudget { count: 0, target: 10 };
    game.registry.insert(bubble(0, 0, 50 * ONE, 0, 0, ONE));
    let idle = game.tick(&Vec::new(), &w, &c, ONE / 60);
    assert!(!idle.reset);
    assert_eq!(idle.spawned, None);
    assert_eq!(game.budget.count, 0);
    let events = vec![press(MouseButton::Left, Some(Vector { x: 400 * ONE, y: 300 * ONE }))];
    let report = game.tick(&events, &w, &c, ONE / 60);
    assert_eq!(report.popped, vec![0]);
    assert_eq!(report.spawned, None);
    assert!(report.reset);
    assert_eq!(game.budget.count, 10);
    assert!(game.registry.run_if_no_bubbles());
    let next = game.tick(&Vec::new(), &w, &c, ONE / 60);
    assert!(!next.reset);
    assert!(next.spawned.is_some());
    assert_eq!(game.budget.count, 9);
}
