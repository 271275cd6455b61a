use snake::geometry::{emod, step, Direction, Position};
use snake::render::{edge_between, score_digits, Edge, Rect};
use snake::snake::{self_collision, stepped_body, Keys, Snake};
use snake::world::{abs_rem, contains, first_free_cell, World};

const NO_KEYS: Keys = Keys { up: false, down: false, left: false, right: false };

fn pos(x: i32, y: i32) -> Position {
    Position { x, y }
}

fn start() -> (World, Snake) {
    (World::initial(), Snake::new(pos(5, 5), 5, Direction::Right))
}

#[test]
fn opposite_twice_is_identity() {
    for d in [Direction::Up, Direction::Right, Direction::Down, Direction::Left] {
        assert_eq!(d.opposite().opposite(), d);
        assert_ne!(d.opposite(), d);
    }
    assert_eq!(Direction::Up.opposite(), Direction::Down);
    assert_eq!(Direction::Left.opposite(), Direction::Right);
}

#[test]
fn initial_world_values() {
    let w = World::initial();
    assert_eq!(w.width, 32);
    assert_eq!(w.height, 24);
    assert_eq!(w.scale, 20);
    assert_eq!(w.tick_delay, 5);
    assert_eq!(w.food, pos(5, 16));
}

#[test]
fn reset_restores_initial_world() {
    let mut w = World::initial();
    w.food = pos(1, 1);
    w.width = 3;
    w.reset();
    assert_eq!(w, World::initial());
}

#[test]
fn new_snake_trails_behind_head() {
    let s = Snake::new(pos(5, 5), 5, Direction::Right);
    assert_eq!(s.body, vec![pos(5, 5), pos(4, 5), pos(3, 5), pos(2, 5), pos(1, 5)]);
    assert!(s.alive);
    assert_eq!(s.ticker, 0);
    assert_eq!(s.score, 0);
    assert_eq!(Snake::new(pos(5, 5), 3, Direction::Up).body, vec![pos(5, 5), pos(5, 6), pos(5, 7)]);
    assert_eq!(Snake::new(pos(5, 5), 3, Direction::Down).body, vec![pos(5, 5), pos(5, 4), pos(5, 3)]);
    assert_eq!(Snake::new(pos(5, 5), 3, Direction::Left).body, vec![pos(5, 5), pos(6, 5), pos(7, 5)]);
}

#[test]
fn euclidean_modulo_is_never_negative() {
    assert_eq!(emod(7, 5), 2);
    assert_eq!(emod(-1, 5), 4);
    assert_eq!(emod(-6, 5), 4);
    assert_eq!(emod(-5, 5), 0);
    assert_eq!(emod(0, 1), 0);
}

#[test]
fn stepping_wraps_around_edges() {
    assert_eq!(step(pos(31, 4), Direction::Right, 32, 24), pos(0, 4));
    assert_eq!(step(pos(0, 4), Direction::Left, 32, 24), pos(31, 4));
    assert_eq!(step(pos(4, 0), Direction::Up, 32, 24), pos(4, 23));
    assert_eq!(step(pos(4, 23), Direction::Down, 32, 24), pos(4, 0));
    assert_eq!(step(pos(4, 7), Direction::Down, 32, 24), pos(4, 8));
}

#[test]
fn step_shifts_every_cell_to_its_predecessor() {
    let body = vec![pos(2, 2), pos(2, 3), pos(3, 3), pos(4, 3)];
    let out = stepped_body(&body, Direction::Left, 32, 24);
    assert_eq!(out, vec![pos(1, 2), pos(2, 2), pos(2, 3), pos(3, 3)]);
    let empty: Vec<Position> = Vec::new();
    assert!(stepped_body(&empty, Direction::Up, 4, 4).is_empty());
}

#[test]
fn first_step_after_tick_delay_frames() {
    let (mut w, mut s) = start();
    for _ in 0..4 {
        s.update(&mut w, NO_KEYS);
    }
    assert_eq!(s.body[0], pos(5, 5));
    assert_eq!(s.ticker, 4);
    s.update(&mut w, NO_KEYS);
    assert_eq!(s.ticker, 5);
    assert_eq!(s.body, vec![pos(6, 5), pos(5, 5), pos(4, 5), pos(3, 5), pos(2, 5)]);
    assert_eq!(s.direction, Direction::Right);
}

#[test]
fn head_and_tail_glide_between_steps() {
    let (mut w, mut s) = start();
    for _ in 0..5 {
        s.update(&mut w, NO_KEYS);
    }
    let mut last_head_width = -1;
    for k in 1..5 {
        s.update(&mut w, NO_KEYS);
        assert_eq!(s.body[0], pos(6, 5));
        let rects = s.segment_rects(&w);
        let head = rects[0].unwrap();
        assert_eq!(head, Rect { x: 120, y: 100, w: k * 4, h: 20 });
        assert!(head.w > last_head_width);
        last_head_width = head.w;
        let tail = rects[4].unwrap();
        assert_eq!(tail, Rect { x: 60 - (5 - k) * 4, y: 100, w: 20, h: 20 });
        assert_eq!(rects[2], Some(Rect { x: 80, y: 100, w: 20, h: 20 }));
    }
    assert_eq!(s.ticker, 9);
}

#[test]
fn rects_for_each_edge() {
    let mut s = Snake::new(pos(3, 3), 3, Direction::Up);
    s.ticker = 2;
    let w = World::initial();
    let rects = s.segment_rects(&w);
    // head (3,3) above (3,4): moving up, bottom edge retreats by 2/5 of a cell
    assert_eq!(rects[0], Some(Rect { x: 60, y: 80 - 8, w: 20, h: 20 }));
    // tail (3,5) below (3,4): the top 3/5 of the cell
    assert_eq!(rects[2], Some(Rect { x: 60, y: 100, w: 20, h: 12 }));
    let single = Snake::new(pos(2, 1), 1, Direction::Left);
    assert_eq!(single.segment_rects(&w), vec![Some(Rect { x: 40, y: 20, w: 20, h: 20 })]);
    assert_eq!(w.food_rect(), Rect { x: 100, y: 320, w: 20, h: 20 });
}

#[test]
fn wrapped_neighbour_selects_no_edge() {
    assert_eq!(edge_between(pos(0, 3), pos(31, 3)), None);
    assert_eq!(edge_between(pos(4, 3), pos(5, 3)), Some(Edge::Left));
    assert_eq!(edge_between(pos(4, 3), pos(4, 4)), Some(Edge::Up));
    assert_eq!(edge_between(pos(4, 5), pos(4, 4)), Some(Edge::Down));
    assert_eq!(edge_between(pos(5, 3), pos(4, 3)), Some(Edge::Right));
    let mut s = Snake::new(pos(31, 3), 3, Direction::Right);
    let w = World::initial();
    s.body = stepped_body(&s.body, Direction::Right, 32, 24);
    assert_eq!(s.segment_rects(&w)[0], None);
}

#[test]
fn reversal_is_blocked() {
    let (mut w, mut s) = start();
    let left = Keys { up: false, down: false, left: true, right: false };
    for _ in 0..5 {
        s.update(&mut w, left);
    }
    assert_eq!(s.direction, Direction::Right);
    assert_eq!(s.body[0], pos(6, 5));
}

#[test]
fn last_held_key_wins() {
    let mut s = Snake::new(pos(5, 5), 5, Direction::Right);
    s.handle_input(Keys { up: true, down: true, left: false, right: false });
    assert_eq!(s.direction, Direction::Down);
    s.handle_input(Keys { up: true, down: false, left: false, right: true });
    assert_eq!(s.direction, Direction::Right);
    s.handle_input(Keys { up: true, down: false, left: false, right: false });
    assert_eq!(s.direction, Direction::Up);
    s.handle_input(NO_KEYS);
    assert_eq!(s.direction, Direction::Up);
}

#[test]
fn turning_changes_the_step() {
    let (mut w, mut s) = start();
    let up = Keys { up: true, down: false, left: false, right: false };
    for _ in 0..5 {
        s.update(&mut w, up);
    }
    assert_eq!(s.direction, Direction::Up);
    assert_eq!(s.body, vec![pos(5, 4), pos(5, 5), pos(4, 5), pos(3, 5), pos(2, 5)]);
}

#[test]
fn eating_grows_by_three_and_scores() {
    let (mut w, mut s) = start();
    w.food = pos(5, 5);
    s.update(&mut w, NO_KEYS);
    assert_eq!(s.body.len(), 8);
    assert_eq!(s.score, 1);
    assert_eq!(&s.body[5..], &[pos(1, 5), pos(1, 5), pos(1, 5)]);
    assert!(!s.body.contains(&w.food));
    assert!(w.food.x >= 0 && w.food.x < 32);
    assert!(w.food.y >= 0 && w.food.y < 24);
    assert!(s.alive);
}

#[test]
fn food_reached_by_moving() {
    let (mut w, mut s) = start();
    w.food = pos(6, 5);
    for _ in 0..5 {
        s.update(&mut w, NO_KEYS);
    }
    assert_eq!(s.body.len(), 5);
    s.update(&mut w, NO_KEYS);
    assert_eq!(s.body.len(), 8);
    assert_eq!(s.score, 1);
    assert!(!s.body.contains(&w.food));
    // the new tail cells glide out over the following steps
    for _ in 0..4 {
        s.update(&mut w, NO_KEYS);
    }
    assert_eq!(s.body[0], pos(7, 5));
    assert_eq!(&s.body[5..], &[pos(2, 5), pos(2, 5), pos(2, 5)]);
}

#[test]
fn self_collision_kills_and_freezes() {
    let (mut w, mut s) = start();
    s.body = vec![pos(3, 3), pos(4, 3), pos(4, 4), pos(3, 4), pos(3, 3), pos(2, 3)];
    assert!(self_collision(&s.body));
    let frozen = s.body.clone();
    s.update(&mut w, NO_KEYS);
    assert!(!s.alive);
    for _ in 0..12 {
        s.update(&mut w, NO_KEYS);
    }
    assert!(!s.alive);
    assert_eq!(s.body, frozen);
    assert_eq!(s.ticker, 13);
}

#[test]
fn no_collision_on_a_straight_body() {
    assert!(!self_collision(&vec![pos(3, 3), pos(4, 3), pos(5, 3)]));
    assert!(!self_collision(&vec![pos(3, 3)]));
    assert!(!self_collision(&Vec::new()));
    // a tail copy is not the head
    assert!(!self_collision(&vec![pos(3, 3), pos(4, 3), pos(4, 3)]));
}

#[test]
fn ticker_wraps_at_the_top() {
    let (mut w, mut s) = start();
    s.ticker = u32::MAX;
    s.update(&mut w, NO_KEYS);
    assert_eq!(s.ticker, 0);
    // 0 is a multiple of the delay: the snake steps
    assert_eq!(s.body[0], pos(6, 5));
}

#[test]
fn food_is_left_alone_when_off_the_body() {
    let mut w = World::initial();
    let body = vec![pos(1, 1), pos(2, 1)];
    w.place_food(&body);
    assert_eq!(w.food, pos(5, 16));
}

#[test]
fn food_finds_the_only_free_cell() {
    let mut w = World { width: 2, height: 2, scale: 10, tick_delay: 1, food: pos(0, 0) };
    let body = vec![pos(0, 0), pos(1, 0), pos(1, 1)];
    w.place_food(&body);
    assert_eq!(w.food, pos(0, 1));
}

#[test]
fn food_stays_on_a_full_grid() {
    let mut w = World { width: 2, height: 2, scale: 10, tick_delay: 1, food: pos(0, 0) };
    let body = vec![pos(0, 0), pos(1, 0), pos(1, 1), pos(0, 1)];
    w.place_food(&body);
    assert!(body.contains(&w.food));
    assert_eq!(first_free_cell(&body, 2, 2), None);
}

#[test]
fn first_free_cell_goes_in_row_order() {
    let body = vec![pos(0, 0), pos(1, 0), pos(2, 0), pos(1, 1)];
    assert_eq!(first_free_cell(&body, 3, 3), Some(pos(0, 1)));
    assert_eq!(first_free_cell(&Vec::new(), 3, 3), Some(pos(0, 0)));
}

#[test]
fn raw_draws_reduce_into_the_grid() {
    assert_eq!(abs_rem(-7, 5), 2);
    assert_eq!(abs_rem(7, 5), 2);
    assert_eq!(abs_rem(i32::MIN, 7), ((1i64 << 31) % 7) as i32);
    assert_eq!(abs_rem(i32::MAX, 32), 31);
}

#[test]
fn membership_test() {
    let body = vec![pos(1, 1), pos(2, 1)];
    assert!(contains(&body, pos(2, 1)));
    assert!(!contains(&body, pos(1, 2)));
}

#[test]
fn position_difference() {
    assert_eq!(pos(3, 7).sub(pos(4, 2)), pos(-1, 5));
}

#[test]
fn score_is_zero_padded_to_three_digits() {
    assert_eq!(score_digits(0), b"000".to_vec());
    assert_eq!(score_digits(7), b"007".to_vec());
    assert_eq!(score_digits(42), b"042".to_vec());
    assert_eq!(score_digits(999), b"999".to_vec());
    assert_eq!(score_digits(1234), b"1234".to_vec());
    assert_eq!(score_digits(u32::MAX), b"4294967295".to_vec());
}
