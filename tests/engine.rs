use rand::rngs::StdRng;
use rand::SeedableRng;
use tetris_engine::{
    Bag, Color, Coord, Engine, GameOver, Kind, Matrix, Move, Offset, Piece, Rotation, Turn, HEIGHT,
    SPAWN_X, SPAWN_Y, WIDTH,
};

const ALL: [Kind; 7] = [Kind::O, Kind::I, Kind::T, Kind::L, Kind::J, Kind::S, Kind::Z];

fn is_permutation_of_all(kinds: &[Kind]) -> bool {
    kinds.len() == 7 && ALL.iter().all(|k| kinds.iter().filter(|d| *d == k).count() == 1)
}

fn filled(m: &Matrix) -> Vec<(usize, usize, Color)> {
    let mut out = Vec::new();
    for y in 0..HEIGHT {
        for x in 0..WIDTH {
            if let Some(c) = m.cell(Coord::new(x, y)) {
                out.push((x, y, c));
            }
        }
    }
    out
}

#[test]
fn bag_draws_come_in_permutations() {
    for seed in 0..20 {
        let mut rng = StdRng::seed_from_u64(seed);
        let mut bag = Bag::new();
        let draws: Vec<Kind> = (0..14).map(|_| bag.draw(&mut rng)).collect();
        assert!(is_permutation_of_all(&draws[0..7]));
        assert!(is_permutation_of_all(&draws[7..14]));
    }
}

#[test]
fn bag_order_is_shuffled() {
    let mut orders = Vec::new();
    for seed in 0..20 {
        let mut rng = StdRng::seed_from_u64(seed);
        let mut bag = Bag::new();
        let draws: Vec<Kind> = (0..7).map(|_| bag.draw(&mut rng)).collect();
        orders.push(draws);
    }
    assert!(orders.iter().any(|o| o.as_slice() != ALL.as_slice()));
    assert!(orders.iter().any(|o| o != &orders[0]));
}

#[test]
fn seeded_engines_spawn_the_same_kinds() {
    let mut a = Engine::with_seed(7);
    let mut b = Engine::with_seed(7);
    let mut kinds = Vec::new();
    for _ in 0..7 {
        assert_eq!(a.spawn_next(), Ok(()));
        assert_eq!(b.spawn_next(), Ok(()));
        assert_eq!(a.cursor(), b.cursor());
        kinds.push(a.cursor().unwrap().kind);
        a.hard_drop();
        b.hard_drop();
    }
    assert!(is_permutation_of_all(&kinds));
}

#[test]
fn move_into_wall_is_rejected() {
    let mut e = Engine::with_seed(1);
    assert_eq!(e.spawn_kind(Kind::O), Ok(()));
    for _ in 0..4 {
        assert_eq!(e.move_cursor(Move::Left), Ok(()));
    }
    let before = e.cursor();
    assert_eq!(before.unwrap().position, Offset::new(-1, SPAWN_Y));
    assert_eq!(e.move_cursor(Move::Left), Err(()));
    assert_eq!(e.cursor(), before);
    for _ in 0..8 {
        assert_eq!(e.move_cursor(Move::Right), Ok(()));
    }
    let before = e.cursor();
    assert_eq!(e.move_cursor(Move::Right), Err(()));
    assert_eq!(e.cursor(), before);
}

#[test]
fn move_into_filled_cell_is_rejected() {
    let mut e = Engine::with_seed(2);
    assert_eq!(e.spawn_kind(Kind::O), Ok(()));
    e.hard_drop();
    assert_eq!(e.spawn_kind(Kind::O), Ok(()));
    assert_eq!(e.move_cursor(Move::Left), Ok(()));
    assert_eq!(e.move_cursor(Move::Left), Ok(()));
    for _ in 0..18 {
        assert!(!e.tick_down());
    }
    let before = e.cursor();
    assert_eq!(before.unwrap().position, Offset::new(1, -1));
    assert_eq!(e.move_cursor(Move::Right), Err(()));
    assert_eq!(e.cursor(), before);
    assert_eq!(filled(e.matrix()).len(), 4);
}

#[test]
fn moves_without_cursor_do_nothing() {
    let mut e = Engine::with_seed(3);
    assert_eq!(e.move_cursor(Move::Left), Ok(()));
    assert_eq!(e.rotate_cursor(Turn::Clockwise), Ok(()));
    assert!(!e.tick_down());
    assert!(!e.cursor_has_hit_bottom());
    assert_eq!(e.cursor(), None);
}

#[test]
fn rotation_is_rejected_at_the_top_and_accepted_lower() {
    let mut e = Engine::with_seed(4);
    assert_eq!(e.spawn_kind(Kind::T), Ok(()));
    assert_eq!(e.rotate_cursor(Turn::Clockwise), Err(()));
    assert_eq!(e.cursor().unwrap().rotation, Rotation::N);
    assert!(!e.tick_down());
    assert_eq!(e.rotate_cursor(Turn::Clockwise), Ok(()));
    assert_eq!(e.cursor().unwrap().rotation, Rotation::E);
    assert_eq!(e.rotate_cursor(Turn::CounterClockwise), Ok(()));
    assert_eq!(e.cursor().unwrap().rotation, Rotation::N);
    assert_eq!(e.rotate_cursor(Turn::CounterClockwise), Ok(()));
    assert_eq!(e.cursor().unwrap().rotation, Rotation::W);
}

#[test]
fn tick_down_locks_and_clears() {
    let mut e = Engine::with_seed(5);
    assert_eq!(e.spawn_kind(Kind::L), Ok(()));
    let mut ticks = 0;
    while !e.cursor_has_hit_bottom() {
        assert!(!e.tick_down());
        ticks += 1;
    }
    assert_eq!(ticks, 18);
    let last = e.cursor().unwrap();
    let cells = last.cells().unwrap();
    assert!(e.tick_down());
    assert_eq!(e.cursor(), None);
    let f = filled(e.matrix());
    assert_eq!(f.len(), 4);
    for c in cells {
        assert!(f.contains(&(c.x, c.y, Color::Orange)));
    }
    assert_eq!(f, vec![(3, 0), (4, 0), (5, 0), (5, 1)].into_iter().map(|(x, y)| (x, y, Color::Orange)).collect::<Vec<_>>());
}

#[test]
fn hard_drop_end_to_end() {
    let mut e = Engine::with_seed(6);
    assert_eq!(e.spawn_kind(Kind::T), Ok(()));
    assert_eq!(
        e.cursor(),
        Some(Piece { kind: Kind::T, position: Offset::new(SPAWN_X, SPAWN_Y), rotation: Rotation::N })
    );
    e.hard_drop();
    assert_eq!(e.cursor(), None);
    let f = filled(e.matrix());
    assert_eq!(
        f,
        vec![(3, 0, Color::Purple), (4, 0, Color::Purple), (5, 0, Color::Purple), (4, 1, Color::Purple)]
    );
    assert_eq!(e.spawn_next(), Ok(()));
    let next = e.cursor().unwrap();
    assert_eq!(next.position, Offset::new(SPAWN_X, SPAWN_Y));
    assert_eq!(next.rotation, Rotation::N);
}

#[test]
fn hard_drop_stacks_on_settled_cells() {
    let mut e = Engine::with_seed(8);
    assert_eq!(e.spawn_kind(Kind::O), Ok(()));
    e.hard_drop();
    assert_eq!(e.spawn_kind(Kind::I), Ok(()));
    e.hard_drop();
    let f = filled(e.matrix());
    assert_eq!(f.len(), 8);
    for x in 3..7 {
        assert!(f.contains(&(x, 2, Color::Cyan)));
    }
    assert!(f.contains(&(4, 1, Color::Yellow)));
}

#[test]
fn blocked_spawn_is_game_over() {
    let mut e = Engine::with_seed(9);
    for _ in 0..10 {
        assert_eq!(e.spawn_kind(Kind::O), Ok(()));
        e.hard_drop();
    }
    assert_eq!(filled(e.matrix()).len(), 40);
    assert_eq!(e.spawn_kind(Kind::O), Err(GameOver));
    assert_eq!(e.cursor(), None);
    assert_eq!(e.spawn_next(), Err(GameOver));
    assert_eq!(e.cursor(), None);
}

#[test]
fn new_engine_is_idle() {
    let mut e = Engine::new().expect("the operating system supplies a seed");
    assert_eq!(e.cursor(), None);
    assert!(filled(e.matrix()).is_empty());
    assert_eq!(e.spawn_next(), Ok(()));
    assert!(e.cursor().is_some());
}
