use rand::Rng;
use std::collections::VecDeque;
use tetris::game::{Game, Intent};
use tetris::global::{
    calculate_score, get_falling_speed, FIELD_HEIGHT, FIELD_WIDTH, MAX_LEVEL, START_X, START_Y,
};
use tetris::matrix::Matrix;
use tetris::position::MatrixPosition;
use tetris::queue::HoldOnQueueResoure;
use tetris::score::{ImagePathResources, Score, ScoreAction, ScoreEvent};
use tetris::tetromino::{
    array_to_vec, get_offset_data, get_pieces_data, square_side, vec_to_array, Rotation,
    Tetromino, TetrominoType,
};
use tetris::timer::SoftDropTimer;

const ALL_TYPES: [TetrominoType; 7] = [
    TetrominoType::I,
    TetrominoType::J,
    TetrominoType::L,
    TetrominoType::S,
    TetrominoType::Z,
    TetrominoType::T,
    TetrominoType::O,
];

fn spawn_pos() -> MatrixPosition {
    MatrixPosition { x: START_X, y: START_Y }
}

fn occupied(m: &Matrix) -> usize {
    m.occupation.iter().filter(|v| **v != 0).count()
}

fn set_cell(m: &mut Matrix, x: usize, y: usize) {
    m.occupation[y * m.field_width + x] = 1;
}

fn cell(m: &Matrix, x: usize, y: usize) -> u8 {
    m.occupation[y * m.field_width + x]
}

fn row(m: &Matrix, y: usize) -> Vec<u8> {
    m.occupation[y * m.field_width..(y + 1) * m.field_width].to_vec()
}

/// A game whose queue holds only pieces of the given type.
fn game_with_queue(ty: TetrominoType) -> Game {
    let mut game = Game::new();
    let mut values = VecDeque::new();
    for _ in 0..5 {
        values.push_back(Tetromino::with_type(spawn_pos(), ty));
    }
    game.queue = HoldOnQueueResoure { start_pos: spawn_pos(), values };
    game
}

#[test]
fn test_rotate_matrix() {
    let matrix = Matrix::default();
    let base = get_pieces_data(TetrominoType::T);
    let mut pieces_data = base.clone();
    println!("old pieces: {:?}", pieces_data);
    for _ in 0..4 {
        let new_pices = matrix.rotate(&pieces_data, true);
        println!("new pieces: {:?}", new_pices);
        pieces_data = new_pices;
    }
    assert_eq!(pieces_data, base);

    println!("{:5}", "=============");
    let mut pieces_data = get_pieces_data(TetrominoType::T);
    println!("old pieces: {:?}", pieces_data);
    for _ in 0..4 {
        let new_pices = matrix.rotate(&pieces_data, false);
        println!("new pieces: {:?}", new_pices);
        pieces_data = new_pices;
    }
    assert_eq!(pieces_data, base);
}

#[test]
fn test_get_pieces_offset() {
    let rotations = [Rotation::R0, Rotation::R1, Rotation::R2, Rotation::R3];
    let mut rng = rand::thread_rng();
    for _ in 0..8 {
        let rotation = rotations[rng.gen_range(0..4)];
        let ty = TetrominoType::random();
        let offsets = get_offset_data(rotation, ty);
        println!("rotation: {:?}, ty: {:?}, offsets: {:?}", rotation, ty, offsets);
        let expected_len = if ty == TetrominoType::O { 2 } else { 10 };
        assert_eq!(offsets.len(), expected_len);
    }
}

#[test]
fn collision_walls_floor_and_cells() {
    let mut m = Matrix::default();
    set_cell(&mut m, 4, 10);
    let p = |x, y| MatrixPosition { x, y };
    assert!(m.check_collision(&p(-1, 5)));
    assert!(m.check_collision(&p(10, 5)));
    assert!(m.check_collision(&p(3, 22)));
    assert!(m.check_collision(&p(4, 10)));
    assert!(!m.check_collision(&p(5, 10)));
    assert!(!m.check_collision(&p(0, 0)));
    assert!(!m.check_collision(&p(9, 21)));
    // rows above the top are open
    assert!(!m.check_collision(&p(4, -1)));
    assert!(!m.check_collision(&p(0, -30)));
    assert!(m.check_collision(&p(-1, -1)));
}

#[test]
fn four_turns_restore_every_shape() {
    let m = Matrix::default();
    for ty in ALL_TYPES {
        for clockwise in [true, false] {
            let base = get_pieces_data(ty);
            let mut data = base.clone();
            for _ in 0..4 {
                data = m.rotate(&data, clockwise);
            }
            assert_eq!(data, base);
        }
    }
}

#[test]
fn rotate_t_clockwise_once() {
    let m = Matrix::default();
    let t = get_pieces_data(TetrominoType::T);
    assert_eq!(t, vec![0, 1, 0, 1, 1, 1, 0, 0, 0]);
    assert_eq!(m.rotate(&t, true), vec![0, 1, 0, 0, 1, 1, 0, 1, 0]);
    assert_eq!(m.rotate(&t, false), vec![0, 1, 0, 1, 1, 0, 0, 1, 0]);
}

#[test]
fn clear_rows_five_and_seven() {
    let mut m = Matrix::default();
    let w = m.field_width;
    // every row other than 5 and 7 misses one cell, at a column of its own
    for y in 0..FIELD_HEIGHT {
        for x in 0..w {
            if y == 5 || y == 7 || x != y % w {
                set_cell(&mut m, x, y);
            }
        }
    }
    let before: Vec<Vec<u8>> = (0..FIELD_HEIGHT).map(|y| row(&m, y)).collect();
    let count = occupied(&m);
    let cleared = m.clear_full_rows();
    assert_eq!(cleared, vec![7, 5]);
    assert_eq!(row(&m, 0), vec![0; 10]);
    assert_eq!(row(&m, 1), vec![0; 10]);
    for y in 0..5 {
        assert_eq!(row(&m, y + 2), before[y]);
    }
    assert_eq!(row(&m, 7), before[6]);
    for y in 8..FIELD_HEIGHT {
        assert_eq!(row(&m, y), before[y]);
    }
    assert_eq!(occupied(&m), count - 2 * w);
}

#[test]
fn clear_rows_none_full() {
    let mut m = Matrix::default();
    set_cell(&mut m, 0, 21);
    let cleared = m.clear_full_rows();
    assert!(cleared.is_empty());
    assert_eq!(cell(&m, 0, 21), 1);
    assert_eq!(occupied(&m), 1);
}

#[test]
fn clear_four_bottom_rows() {
    let mut m = Matrix::default();
    for y in 18..22 {
        for x in 0..10 {
            set_cell(&mut m, x, y);
        }
    }
    set_cell(&mut m, 2, 17);
    let cleared = m.clear_full_rows();
    assert_eq!(cleared, vec![21, 20, 19, 18]);
    assert_eq!(occupied(&m), 1);
    assert_eq!(cell(&m, 2, 21), 1);
}

#[test]
fn hard_drop_on_empty_field_lands_on_floor() {
    let mut game = game_with_queue(TetrominoType::I);
    let events = game.step_with(0, Intent::Idle, TetrominoType::I);
    assert!(events.is_empty());
    assert!(game.current.is_some());
    let events = game.step_with(0, Intent::HardDrop, TetrominoType::I);
    let cells = (FIELD_HEIGHT as i32 - 1 - START_Y) as u32;
    assert_eq!(
        events,
        vec![ScoreEvent { action: ScoreAction::HardDrop(cells), cleared_lines: 0 }]
    );
    assert_eq!(game.score.value, 2 * cells as usize);
    for x in 3..7 {
        assert_eq!(cell(&game.matrix, x, 21), 1);
    }
    assert_eq!(occupied(&game.matrix), 4);
    assert!(!game.matrix.game_over);
    assert!(game.matrix.create);
    assert!(game.current.is_none());
}

#[test]
fn drop_distance_of_t_piece() {
    let mut m = Matrix::default();
    let t = Tetromino::with_type(spawn_pos(), TetrominoType::T);
    // T occupies grid rows 0 and 1: its lowest cells rest on row 21
    assert_eq!(m.drop_distance(&t), 20);
    set_cell(&mut m, 4, 15);
    assert_eq!(m.drop_distance(&t), 13);
}

#[test]
fn i_piece_wall_kick() {
    let mut m = Matrix::default();
    let p0 = Tetromino::with_type(MatrixPosition { x: 3, y: 5 }, TetrominoType::I);
    m.start_pos = MatrixPosition { x: 3, y: 5 };
    let p1 = m.can_rotate(1, &p0).unwrap();
    assert_eq!(m.start_pos, MatrixPosition { x: 3, y: 5 });
    assert_eq!(p1.rotation, Rotation::R1);
    // the upright bar stands in grid column 3; put it in field column 1
    m.start_pos = MatrixPosition { x: -2, y: 5 };
    let p2 = m.can_rotate(1, &p1).unwrap();
    // in place the flat bar would reach column -2; the first two kicks,
    // (0, -1) and (-1, -1), still leave the field, the third, (2, -1), fits
    assert_eq!(m.start_pos, MatrixPosition { x: 0, y: 4 });
    assert_eq!(p2.rotation, Rotation::R2);
    assert_eq!(p2.position, MatrixPosition { x: 0, y: 4 });
    let blocks = p2.get_blocks_position();
    assert_eq!(
        blocks,
        vec![
            MatrixPosition { x: 0, y: 3 },
            MatrixPosition { x: 1, y: 3 },
            MatrixPosition { x: 2, y: 3 },
            MatrixPosition { x: 3, y: 3 },
        ]
    );
}

#[test]
fn rotation_rejected_leaves_anchor() {
    let mut m = Matrix::default();
    let p0 = Tetromino::with_type(MatrixPosition { x: 3, y: 5 }, TetrominoType::I);
    m.start_pos = MatrixPosition { x: 3, y: 5 };
    let p1 = m.can_rotate(1, &p0).unwrap();
    m.start_pos = MatrixPosition { x: -3, y: 5 };
    assert!(m.can_rotate(1, &p1).is_none());
    assert_eq!(m.start_pos, MatrixPosition { x: -3, y: 5 });
}

#[test]
fn scores() {
    assert_eq!(calculate_score(3, ScoreAction::Tetris), 2400);
    assert_eq!(calculate_score(3, ScoreAction::SoftDrop(5)), 5);
    assert_eq!(calculate_score(3, ScoreAction::HardDrop(5)), 10);
    assert_eq!(calculate_score(2, ScoreAction::Single), 200);
    assert_eq!(calculate_score(1, ScoreAction::Double), 300);
    assert_eq!(calculate_score(4, ScoreAction::Triple), 2000);
    assert_eq!(calculate_score(1, ScoreAction::MiniTSpin), 100);
    assert_eq!(calculate_score(1, ScoreAction::MiniTSpinSingle), 200);
    assert_eq!(calculate_score(1, ScoreAction::TSpin), 400);
    assert_eq!(calculate_score(1, ScoreAction::TSpinSingle), 800);
    assert_eq!(calculate_score(1, ScoreAction::TSpinDouble), 1200);
    assert_eq!(calculate_score(1, ScoreAction::TSpinTriple), 1600);
    assert_eq!(calculate_score(2, ScoreAction::BackToBackBonus), 10800);
}

#[test]
fn score_events_and_record() {
    assert_eq!(
        ScoreEvent::soft_drop(),
        ScoreEvent { action: ScoreAction::SoftDrop(1), cleared_lines: 0 }
    );
    assert_eq!(
        ScoreEvent::hard_drop(7),
        ScoreEvent { action: ScoreAction::HardDrop(7), cleared_lines: 0 }
    );
    let mut s = Score::new();
    s.record(3, &ScoreEvent { action: ScoreAction::Tetris, cleared_lines: 4 });
    s.record(3, &ScoreEvent::soft_drop());
    assert_eq!(s.value, 2401);
    assert_eq!(s.cleared_lines[ScoreAction::Tetris.kind()], 4);
    s.value = usize::MAX - 1;
    s.record(1, &ScoreEvent::hard_drop(1));
    assert_eq!(s.value, usize::MAX);
}

#[test]
fn lines_to_actions() {
    assert_eq!(ScoreAction::for_lines(1), Some(ScoreAction::Single));
    assert_eq!(ScoreAction::for_lines(2), Some(ScoreAction::Double));
    assert_eq!(ScoreAction::for_lines(3), Some(ScoreAction::Triple));
    assert_eq!(ScoreAction::for_lines(4), Some(ScoreAction::Tetris));
    assert_eq!(ScoreAction::for_lines(0), None);
    assert_eq!(ScoreAction::for_lines(5), None);
}

#[test]
fn level_advances_at_ten_lines() {
    let mut m = Matrix::default();
    m.lines_cleared = 9;
    m.advance_level_if_needed();
    assert_eq!(m.level, 1);
    assert_eq!(m.lines_cleared, 9);
    m.lines_cleared = 10;
    m.advance_level_if_needed();
    assert_eq!(m.level, 2);
    assert_eq!(m.lines_cleared, 0);
    m.level = MAX_LEVEL;
    m.lines_cleared = 100;
    m.advance_level_if_needed();
    assert_eq!(m.level, MAX_LEVEL);
    assert_eq!(m.lines_cleared, 0);
}

#[test]
fn spawn_clears_and_levels_up() {
    let mut game = game_with_queue(TetrominoType::O);
    game.matrix.lines_cleared = 8;
    for x in 0..10 {
        set_cell(&mut game.matrix, x, 21);
        set_cell(&mut game.matrix, x, 20);
    }
    let events = game.step_with(0, Intent::Idle, TetrominoType::O);
    assert_eq!(
        events,
        vec![ScoreEvent { action: ScoreAction::Double, cleared_lines: 2 }]
    );
    assert_eq!(game.score.value, 300);
    assert_eq!(game.matrix.level, 2);
    assert_eq!(game.matrix.lines_cleared, 0);
    assert_eq!(occupied(&game.matrix), 0);
    assert_eq!(game.timer.duration, 793000);
    assert!(game.current.is_some());
}

#[test]
fn blocked_spawn_ends_the_game() {
    let mut game = game_with_queue(TetrominoType::O);
    set_cell(&mut game.matrix, 4, 0);
    game.step_with(0, Intent::Idle, TetrominoType::O);
    assert!(game.matrix.game_over);
    assert!(game.current.is_none());
    let occupation = game.matrix.occupation.clone();
    let start = game.matrix.start_pos;
    for intent in [Intent::MoveLeft, Intent::HardDrop, Intent::SoftDrop, Intent::RotateCW] {
        let events = game.step(1_000_000, intent);
        assert!(events.is_empty());
        assert_eq!(game.matrix.occupation, occupation);
        assert_eq!(game.matrix.start_pos, start);
        assert!(game.matrix.game_over);
    }
    game.renew();
    assert!(!game.matrix.game_over);
    assert_eq!(occupied(&game.matrix), 0);
}

#[test]
fn moves_and_soft_drop() {
    let mut game = game_with_queue(TetrominoType::J);
    game.step_with(0, Intent::Idle, TetrominoType::J);
    game.step_with(0, Intent::MoveLeft, TetrominoType::J);
    assert_eq!(game.matrix.start_pos, MatrixPosition { x: 2, y: 0 });
    for _ in 0..5 {
        game.step_with(0, Intent::MoveLeft, TetrominoType::J);
    }
    assert_eq!(game.matrix.start_pos, MatrixPosition { x: 0, y: 0 });
    let events = game.step_with(0, Intent::SoftDrop, TetrominoType::J);
    assert_eq!(events, vec![ScoreEvent::soft_drop()]);
    assert_eq!(game.matrix.start_pos, MatrixPosition { x: 0, y: 1 });
    assert_eq!(game.score.value, 1);
    assert_eq!(game.current.as_ref().unwrap().position, MatrixPosition { x: 0, y: 1 });
}

#[test]
fn gravity_moves_down_without_score() {
    let mut game = game_with_queue(TetrominoType::S);
    game.step_with(0, Intent::Idle, TetrominoType::S);
    let period = game.timer.duration;
    let events = game.step_with(period - 1, Intent::Idle, TetrominoType::S);
    assert!(events.is_empty());
    assert_eq!(game.matrix.start_pos.y, 0);
    let events = game.step_with(1, Intent::Idle, TetrominoType::S);
    assert!(events.is_empty());
    assert_eq!(game.matrix.start_pos.y, 1);
    assert_eq!(game.score.value, 0);
}

#[test]
fn lock_near_top_ends_the_game() {
    let mut game = game_with_queue(TetrominoType::O);
    for y in 2..22 {
        set_cell(&mut game.matrix, 5, y);
    }
    game.step_with(0, Intent::Idle, TetrominoType::O);
    assert!(game.current.is_some());
    // the O piece covers columns 4 and 5 of rows 0 and 1; it cannot fall
    game.step_with(0, Intent::SoftDrop, TetrominoType::O);
    assert!(game.matrix.game_over);
    assert!(game.current.is_none());
    assert_eq!(cell(&game.matrix, 4, 0), 1);
    assert_eq!(cell(&game.matrix, 5, 1), 1);
}

#[test]
fn falling_speed() {
    assert_eq!(get_falling_speed(1), 800_000);
    assert_eq!(get_falling_speed(2), 793_000);
    assert_eq!(get_falling_speed(MAX_LEVEL), 737_000);
}

#[test]
fn timer_fires_and_wraps() {
    let mut t = SoftDropTimer::new(100);
    assert!(!t.tick(60));
    assert_eq!(t.elapsed, 60);
    assert!(t.tick(60));
    assert_eq!(t.elapsed, 20);
    assert!(t.tick(380));
    assert_eq!(t.elapsed, 0);
    t.reset_with(50);
    assert_eq!(t.duration, 50);
    assert_eq!(t.elapsed, 0);
}

#[test]
fn queue_pops_front_and_refills() {
    let mut q = HoldOnQueueResoure::new(spawn_pos());
    assert_eq!(q.values.len(), 5);
    let front = q.first().unwrap().ty;
    let second = q.values[1].ty;
    let popped = q.pop_push_with(TetrominoType::Z);
    assert_eq!(popped.ty, front);
    assert_eq!(q.values.len(), 5);
    assert_eq!(q.first().unwrap().ty, second);
    assert_eq!(q.values[4].ty, TetrominoType::Z);
    assert_eq!(q.values[4].rotation, Rotation::R0);
    let popped = q.pop_push();
    assert_eq!(popped.ty, second);
    assert_eq!(q.values.len(), 5);
}

#[test]
fn random_types_vary() {
    let mut seen = [false; 7];
    for _ in 0..500 {
        seen[TetrominoType::random().index()] = true;
    }
    assert!(seen.iter().filter(|s| **s).count() > 1);
}

#[test]
fn shapes_and_offsets() {
    assert_eq!(get_pieces_data(TetrominoType::I), vec![1, 1, 1, 1, 0, 0, 0, 0, 0, 0, 0, 0, 0, 0, 0, 0]);
    assert_eq!(get_pieces_data(TetrominoType::O), vec![0, 1, 1, 0, 1, 1, 0, 0, 0]);
    assert_eq!(get_pieces_data(TetrominoType::S), vec![0, 1, 1, 1, 1, 0, 0, 0, 0]);
    assert_eq!(get_offset_data(Rotation::R1, TetrominoType::T), vec![0, 0, 1, 0, 1, -1, 0, 2, 1, 2]);
    assert_eq!(get_offset_data(Rotation::R3, TetrominoType::I), vec![0, 1, 0, 1, 0, 1, 0, -1, 0, 2]);
    assert_eq!(get_offset_data(Rotation::R2, TetrominoType::O), vec![-1, -1]);
}

#[test]
fn rotation_cycle() {
    assert_eq!(Rotation::R0.clockwise(), Rotation::R1);
    assert_eq!(Rotation::R3.clockwise(), Rotation::R0);
    assert_eq!(Rotation::R0.counter_clockwise(), Rotation::R3);
    assert_eq!(Rotation::R2.counter_clockwise(), Rotation::R1);
}

#[test]
fn grid_conversions() {
    assert_eq!(array_to_vec([[1, 2], [3, 4]]), vec![1, 2, 3, 4]);
    assert_eq!(vec_to_array(vec![1, 2, 3, 4, 5, 6, 7, 8, 9]), vec![vec![1, 2, 3], vec![4, 5, 6], vec![7, 8, 9]]);
    assert_eq!(vec_to_array(vec![1, 2, 3, 4, 5]), vec![vec![1, 2], vec![3, 4]]);
    assert_eq!(square_side(16), 4);
    assert_eq!(square_side(15), 3);
    assert_eq!(square_side(0), 0);
}

#[test]
fn blocks_of_l_piece() {
    let l = Tetromino::with_type(spawn_pos(), TetrominoType::L);
    assert_eq!(
        l.get_blocks_position(),
        vec![
            MatrixPosition { x: 2, y: 0 },
            MatrixPosition { x: 0, y: 1 },
            MatrixPosition { x: 1, y: 1 },
            MatrixPosition { x: 2, y: 1 },
        ]
    );
}

#[test]
fn image_paths() {
    let paths = ImagePathResources::new();
    assert_eq!(paths.get_path(TetrominoType::I), "red.png");
    assert_eq!(paths.get_path(TetrominoType::O), "purple.png");
    assert_eq!(paths.get_path(TetrominoType::T), "cyan.png");
}

#[test]
fn new_field_is_empty() {
    let m = Matrix::default();
    assert_eq!(m.field_width, FIELD_WIDTH);
    assert_eq!(m.occupation.len(), FIELD_WIDTH * FIELD_HEIGHT);
    assert_eq!(occupied(&m), 0);
    assert_eq!(m.level, 1);
    assert!(m.create);
}
