use brainfuck::tape::BoundnessMode;
use brainfuck::tape::Tape;

#[test]
fn cells_start_zeroed_and_pointer_at_zero() {
    let tape = Tape::new(4, BoundnessMode::Strict);
    assert_eq!(tape.pointer(), 0);
    assert_eq!(tape.capacity(), 4);
    for address in 0..4 {
        assert_eq!(tape.cell_at(address), Some(0));
    }
    assert_eq!(tape.cell_at(4), None);
}

#[test]
fn cell_arithmetic_wraps_modulo_256() {
    let mut tape = Tape::new(1, BoundnessMode::Strict);
    for _ in 0..255 {
        tape.increment();
    }
    assert_eq!(tape.read_cell(), 255);
    tape.increment();
    assert_eq!(tape.read_cell(), 0);
    tape.decrement();
    assert_eq!(tape.read_cell(), 255);
}

#[test]
fn strict_moves_fail_at_the_edges_without_mutation() {
    let mut tape = Tape::new(2, BoundnessMode::Strict);
    assert!(!tape.move_left());
    assert_eq!(tape.pointer(), 0);
    assert!(tape.move_right());
    assert_eq!(tape.pointer(), 1);
    assert!(!tape.move_right());
    assert_eq!(tape.pointer(), 1);
    assert!(tape.move_left());
    assert_eq!(tape.pointer(), 0);
}

#[test]
fn wrapping_moves_wrap_modulo_capacity() {
    let mut tape = Tape::new(3, BoundnessMode::Wrapping);
    assert!(tape.move_left());
    assert_eq!(tape.pointer(), 2);
    assert!(tape.move_right());
    assert_eq!(tape.pointer(), 0);
    assert!(tape.move_right());
    assert!(tape.move_right());
    assert_eq!(tape.pointer(), 2);
    assert!(tape.move_right());
    assert_eq!(tape.pointer(), 0);
}

#[test]
fn reset_zeroes_cells_and_pointer_but_keeps_policy() {
    let mut tape = Tape::new(3, BoundnessMode::Wrapping);
    tape.increment();
    tape.move_right();
    tape.increment();
    tape.reset();
    assert_eq!(tape.pointer(), 0);
    assert_eq!(tape.capacity(), 3);
    for address in 0..3 {
        assert_eq!(tape.cell_at(address), Some(0));
    }
    assert!(tape.move_left());
    assert_eq!(tape.pointer(), 2);
}
