use bfrun::types::{CharBuf, Strip};

/// The cells from `from` to `to` cells right of the cursor, read by moving
/// there and back.
fn window(tape: &mut Strip, from: i64, to: i64) -> Vec<u8> {
    let mut cells = Vec::new();
    tape.shift(from);
    for _ in from..to {
        cells.push(tape.read());
        tape.shift(1);
    }
    cells.push(tape.read());
    tape.shift(-to);
    cells
}

#[test]
fn unwritten_cells_read_zero() {
    let mut tape = Strip::new();
    assert_eq!(tape.read(), 0);
    tape.shift(1000);
    assert_eq!(tape.read(), 0);
    tape.shift(-2000);
    assert_eq!(tape.read(), 0);
}

#[test]
fn write_overwrites_the_current_cell_only() {
    let mut tape = Strip::new();
    tape.write(7);
    assert_eq!(tape.read(), 7);
    tape.write(9);
    assert_eq!(tape.read(), 9);
    assert_eq!(window(&mut tape, -2, 2), vec![0, 0, 9, 0, 0]);
}

#[test]
fn incrementing_256_times_restores_the_cell() {
    let mut tape = Strip::new();
    tape.write(42);
    for _ in 0..256 {
        tape.add(1);
    }
    assert_eq!(tape.read(), 42);
    // The same as one run.
    tape.apply_run('+', 256);
    assert_eq!(tape.read(), 42);
    tape.apply_run('-', 256);
    assert_eq!(tape.read(), 42);
}

#[test]
fn decrementing_zero_gives_255() {
    let mut tape = Strip::new();
    tape.sub(1);
    assert_eq!(tape.read(), 255);
    tape.add(1);
    assert_eq!(tape.read(), 0);
}

#[test]
fn add_and_sub_wrap_modulo_256() {
    let mut tape = Strip::new();
    tape.write(200);
    tape.add(100);
    assert_eq!(tape.read(), 44);
    tape.sub(45);
    assert_eq!(tape.read(), 255);
    tape.add(255);
    assert_eq!(tape.read(), 254);
}

#[test]
fn moving_right_then_left_changes_nothing() {
    for n in [0i64, 1, 2, 17, 300] {
        let mut tape = Strip::new();
        tape.write(5);
        tape.shift(n);
        tape.shift(-n);
        assert_eq!(tape.read(), 5);
        assert_eq!(window(&mut tape, -3, 3), vec![0, 0, 0, 5, 0, 0, 0]);
        tape.shift(-n);
        tape.shift(n);
        assert_eq!(window(&mut tape, -3, 3), vec![0, 0, 0, 5, 0, 0, 0]);
    }
}

#[test]
fn moves_keep_what_was_written_on_both_sides() {
    let mut tape = Strip::new();
    tape.write(1);
    tape.shift(3);
    tape.write(2);
    tape.shift(-5);
    tape.write(3);
    tape.shift(2);
    assert_eq!(window(&mut tape, -3, 4), vec![0, 3, 0, 1, 0, 0, 2, 0]);
    // One cell at a time gives what one move gives.
    tape.move_left();
    tape.move_left();
    assert_eq!(tape.read(), 3);
    tape.move_right();
    tape.move_right();
    tape.move_right();
    tape.move_right();
    tape.move_right();
    assert_eq!(tape.read(), 2);
}

#[test]
fn apply_run_is_a_bulk_update() {
    let mut tape = Strip::new();
    tape.apply_run('+', 300);
    assert_eq!(tape.read(), 44);
    tape.apply_run('-', 45);
    assert_eq!(tape.read(), 255);
    tape.apply_run('>', 70_000);
    assert_eq!(tape.read(), 0);
    tape.write(8);
    tape.apply_run('<', 70_000);
    assert_eq!(tape.read(), 255);
    tape.apply_run('>', 70_000);
    assert_eq!(tape.read(), 8);
    // Other characters are no operators of a run.
    tape.apply_run('.', 3);
    tape.apply_run('x', 3);
    assert_eq!(tape.read(), 8);
}

#[test]
fn clear_wipes_the_tape() {
    let mut tape = Strip::new();
    tape.write(1);
    tape.shift(2);
    tape.write(2);
    tape.clear();
    assert_eq!(window(&mut tape, -3, 3), vec![0; 7]);
    let mut fresh = Strip::default();
    assert_eq!(window(&mut fresh, -3, 3), vec![0; 7]);
}

#[test]
fn buffer_counts_repeats_of_one_operator() {
    let mut buf = CharBuf::new();
    assert_eq!(buf.ch_opt, None);
    assert_eq!(buf.ctr, 0);
    buf.insert('+');
    assert_eq!(buf.ch_opt, Some('+'));
    assert_eq!(buf.ctr, 1);
    buf.insert('+');
    buf.insert('+');
    assert_eq!(buf.ch_opt, Some('+'));
    assert_eq!(buf.ctr, 3);
    buf.clear();
    assert_eq!(buf.ch_opt, None);
    assert_eq!(buf.ctr, 0);
    let fresh = CharBuf::default();
    assert_eq!(fresh.ch_opt, None);
    assert_eq!(fresh.ctr, 0);
}

#[test]
fn buffer_accepts_what_it_holds_and_nothing_else() {
    let mut buf = CharBuf::new();
    assert!(buf.can_insert('+'));
    assert!(buf.can_insert('>'));
    buf.insert('+');
    assert!(buf.can_insert('+'));
    assert!(!buf.can_insert('-'));
    assert!(!buf.can_insert('>'));
    let full = CharBuf { ch_opt: Some('+'), ctr: u32::MAX };
    assert!(!full.can_insert('+'));
    let almost = CharBuf { ch_opt: Some('+'), ctr: u32::MAX - 1 };
    assert!(almost.can_insert('+'));
}

#[test]
fn flush_applies_the_run_once_and_empties_the_buffer() {
    let mut tape = Strip::new();
    let mut buf = CharBuf::new();
    // Flushing an empty buffer changes nothing.
    buf.flush(&mut tape);
    assert_eq!(tape.read(), 0);
    for _ in 0..8 {
        buf.insert('+');
    }
    assert_eq!(tape.read(), 0);
    buf.flush(&mut tape);
    assert_eq!(tape.read(), 8);
    assert_eq!(buf.ch_opt, None);
    assert_eq!(buf.ctr, 0);
    buf.insert('>');
    buf.insert('>');
    buf.flush(&mut tape);
    assert_eq!(tape.read(), 0);
    buf.insert('<');
    buf.insert('<');
    buf.flush(&mut tape);
    assert_eq!(tape.read(), 8);
    buf.insert('-');
    buf.flush(&mut tape);
    assert_eq!(tape.read(), 7);
}

/// Runs `ops` through the buffer as the engine does: a different operator
/// flushes first, and the end flushes.
fn batched(ops: &str) -> Strip {
    let mut tape = Strip::new();
    let mut buf = CharBuf::new();
    for c in ops.chars() {
        if !buf.can_insert(c) {
            buf.flush(&mut tape);
        }
        buf.insert(c);
    }
    buf.flush(&mut tape);
    tape
}

/// Applies `ops` one character at a time.
fn unbatched(ops: &str) -> Strip {
    let mut tape = Strip::new();
    for c in ops.chars() {
        tape.apply_run(c, 1);
    }
    tape
}

#[test]
fn batched_and_unbatched_execution_agree() {
    let long = "+".repeat(256);
    let longer = "-".repeat(513);
    let far = ">".repeat(300);
    let programs = [
        String::new(),
        "+".to_string(),
        "++>+++<<->>>----<".to_string(),
        long.clone(),
        format!("{}>{}<{}", long, longer, long),
        format!("+{}++{}+++<<{}-", far, "<".repeat(300), far),
        "+-+-<><>+>-<".to_string(),
    ];
    for prog in programs.iter() {
        let mut a = batched(prog);
        let mut b = unbatched(prog);
        // Same cursor: writing a mark through one reads back on the other
        // only if both windows line up, and the windows hold the same cells.
        assert_eq!(window(&mut a, -310, 310), window(&mut b, -310, 310), "{}", prog);
        // Undo the moves of the program on both; the mark of the origin is
        // found at the same distance.
        let net: i64 = prog.chars().map(|c| match c {
            '>' => 1,
            '<' => -1,
            _ => 0,
        }).sum();
        a.shift(-net);
        b.shift(-net);
        assert_eq!(window(&mut a, -5, 5), window(&mut b, -5, 5), "{}", prog);
    }
}

#[test]
fn a_run_of_a_multiple_of_256_changes_no_cell() {
    let mut a = batched(&"+".repeat(512));
    assert_eq!(a.read(), 0);
    let mut b = batched(&format!("+++{}", "-".repeat(256 + 3)));
    assert_eq!(b.read(), 0);
    assert_eq!(window(&mut a, -1, 1), vec![0, 0, 0]);
    assert_eq!(window(&mut b, -1, 1), vec![0, 0, 0]);
}
