use bfrun::error::Error;
use bfrun::machine::Status;
use bfrun::Interpreter;

/// Runs `prog` on `input` and gives the result and the output.
fn run(prog: &str, input: &[u8]) -> (Result<(), Error>, Vec<u8>) {
    let mut int = Interpreter::new().bfin(input.to_vec()).bfout(Vec::new());
    let res = int.run(prog);
    (res, int.take_output())
}

#[test]
fn hello_world_without_the_comment_loop() {
    let prog = "++++++++[>++++[>++>+++>+++>+<<<<-]>+>+>->>+[<]<-]>>.>---.+++++++..+++.>>.<-.<.+++.------.--------.>>+.>++.";
    let (res, out) = run(prog, b"");
    assert_eq!(res, Ok(()));
    assert_eq!(out, b"Hello World!\n");
}

#[test]
fn comment_loop_is_skipped_entirely() {
    // On a fresh tape the loop is false: nothing in it runs, no input is
    // taken and nothing is written; what follows it runs as usual.
    let prog = "[,.[.],..,,,+,-,<>,[]..],.+.";
    let (res, out) = run(prog, b"A");
    assert_eq!(res, Ok(()));
    assert_eq!(out, b"AB");
    // With no input at all the loop alone still runs to its end.
    let (res, out) = run("[,.[.],..,,,+,-,<>,[]..]", b"");
    assert_eq!(res, Ok(()));
    assert_eq!(out, b"");
}

#[test]
fn output_writes_the_current_cell() {
    let (res, out) = run("+++.>.<-.", b"");
    assert_eq!(res, Ok(()));
    assert_eq!(out, vec![3, 0, 2]);
}

#[test]
fn input_reads_one_byte_per_comma() {
    let (res, out) = run(",.,.,.", b"xyz and more");
    assert_eq!(res, Ok(()));
    assert_eq!(out, b"xyz");
    let (res, out) = run(",+.>,-.", &[255, 0]);
    assert_eq!(res, Ok(()));
    assert_eq!(out, vec![0, 255]);
}

#[test]
fn exhausted_input_is_a_fault_after_the_output_so_far() {
    let (res, out) = run("+.,.", b"");
    assert_eq!(res, Err(Error::EndOfInput));
    assert_eq!(out, vec![1]);
    let (res, out) = run(",.,.", b"a");
    assert_eq!(res, Err(Error::EndOfInput));
    assert_eq!(out, b"a");
}

#[test]
fn unbalanced_programs_are_refused_before_anything_runs() {
    let (res, out) = run("+.[", b"");
    assert_eq!(res, Err(Error::MissingRightBracket));
    assert_eq!(out, b"");
    let (res, out) = run("+.]", b"");
    assert_eq!(res, Err(Error::MissingLeftBracket));
    assert_eq!(out, b"");
}

#[test]
fn cells_wrap_around() {
    let (_, out) = run("-.", b"");
    assert_eq!(out, vec![255]);
    let (_, out) = run(&format!("{}.", "+".repeat(256)), b"");
    assert_eq!(out, vec![0]);
    let (_, out) = run(&format!("{}.", "+".repeat(256 * 3 + 7)), b"");
    assert_eq!(out, vec![7]);
    let (_, out) = run(&format!("+++{}.", "-".repeat(256 + 4)), b"");
    assert_eq!(out, vec![255]);
}

#[test]
fn clear_loop_zeroes_the_cell_and_stays_put() {
    let (res, out) = run(">+<+++++[-].>.", b"");
    assert_eq!(res, Ok(()));
    assert_eq!(out, vec![0, 1]);
    let (res, out) = run(",[-].", &[200]);
    assert_eq!(res, Ok(()));
    assert_eq!(out, vec![0]);
}

#[test]
fn clear_loop_takes_two_steps_for_each_round() {
    for n in [1usize, 2, 5, 255] {
        let prog = format!("{}[-]", "+".repeat(n));
        let mut int = Interpreter::new();
        int.load(&prog).unwrap();
        // n increments, one step into the loop, two steps for each round.
        assert_eq!(int.advance(n + 1 + 2 * n - 1), Status::Running);
        assert_eq!(int.advance(1), Status::Halted);
    }
}

#[test]
fn empty_loop_on_zero_is_left_at_once() {
    let (res, out) = run("[]+.", b"");
    assert_eq!(res, Ok(()));
    assert_eq!(out, vec![1]);
    let mut int = Interpreter::new();
    int.load("[]").unwrap();
    assert_eq!(int.advance(1), Status::Running);
    assert_eq!(int.advance(1), Status::Halted);
}

#[test]
fn empty_loop_on_nonzero_never_ends() {
    let mut int = Interpreter::new().bfin(b"unread".to_vec());
    int.load("+[].,").unwrap();
    for _ in 0..50 {
        assert_eq!(int.advance(1000), Status::Running);
        assert_eq!(int.status(), Status::Running);
    }
    assert_eq!(int.take_output(), b"");
}

#[test]
fn nested_loops_multiply() {
    // 6 * 7 in the third cell.
    let (res, out) = run("++++++[>+++++++[>+<-]<-]>>.", b"");
    assert_eq!(res, Ok(()));
    assert_eq!(out, vec![42]);
}

#[test]
fn skipped_loops_may_nest() {
    let (res, out) = run("[[[+.]]-.[.]]+.", b"");
    assert_eq!(res, Ok(()));
    assert_eq!(out, vec![1]);
    // A loop that is skipped inside a loop that runs.
    let (res, out) = run("+[>[.[.]]<-]>.", b"");
    assert_eq!(res, Ok(()));
    assert_eq!(out, vec![0]);
}

#[test]
fn cursor_moves_left_of_the_origin() {
    let (res, out) = run("<<<+++>>>.<<<.", b"");
    assert_eq!(res, Ok(()));
    assert_eq!(out, vec![0, 3]);
}

#[test]
fn runs_leave_no_state_behind() {
    let mut int = Interpreter::new().bfin(b"ab".to_vec());
    assert_eq!(int.run("+++>++,."), Ok(()));
    // A second run starts on a blank tape at the origin, and reads on where
    // the first one stopped reading.
    assert_eq!(int.run(".<.>,."), Ok(()));
    assert_eq!(int.take_output(), vec![b'a', 0, 0, b'b']);
    // A run that ended in a fault leaves nothing behind either.
    assert_eq!(int.run("+++,"), Err(Error::EndOfInput));
    assert_eq!(int.run("."), Ok(()));
    assert_eq!(int.take_output(), vec![0]);
}

#[test]
fn refused_program_leaves_the_engine_as_it_was() {
    let mut int = Interpreter::new();
    int.load("+++.+.").unwrap();
    assert_eq!(int.advance(4), Status::Running);
    assert_eq!(int.load("]["), Err(Error::MissingLeftBracket));
    assert_eq!(int.run("[["), Err(Error::MissingRightBracket));
    assert_eq!(int.advance(10), Status::Halted);
    assert_eq!(int.take_output(), vec![3, 4]);
}

#[test]
fn step_takes_one_instruction_at_a_time() {
    let mut int = Interpreter::new();
    assert_eq!(int.status(), Status::Halted);
    assert_eq!(int.step(), Status::Halted);
    int.load("+.-").unwrap();
    assert_eq!(int.status(), Status::Running);
    assert_eq!(int.step(), Status::Running);
    assert_eq!(int.take_output(), b"");
    assert_eq!(int.step(), Status::Running);
    assert_eq!(int.take_output(), vec![1]);
    assert_eq!(int.step(), Status::Halted);
    assert_eq!(int.step(), Status::Halted);
    assert_eq!(int.take_output(), b"");
}

#[test]
fn engine_waits_for_input_and_goes_on_when_it_comes() {
    let mut int = Interpreter::new();
    int.load("+.,.,.").unwrap();
    assert_eq!(int.advance(100), Status::NeedsInput);
    assert_eq!(int.take_output(), vec![1]);
    // Waiting changes nothing.
    assert_eq!(int.advance(100), Status::NeedsInput);
    assert_eq!(int.step(), Status::NeedsInput);
    assert_eq!(int.take_output(), b"");
    int.push_input(b'q');
    assert_eq!(int.status(), Status::Running);
    assert_eq!(int.advance(100), Status::NeedsInput);
    assert_eq!(int.take_output(), b"q");
    int.push_input(b'r');
    int.push_input(b's');
    assert_eq!(int.advance(100), Status::Halted);
    assert_eq!(int.take_output(), b"r");
}

#[test]
fn advance_stops_at_the_limit() {
    let mut int = Interpreter::new();
    int.load("+.+.+.+.").unwrap();
    assert_eq!(int.advance(0), Status::Running);
    assert_eq!(int.take_output(), b"");
    assert_eq!(int.advance(3), Status::Running);
    assert_eq!(int.take_output(), vec![1]);
    assert_eq!(int.advance(3), Status::Running);
    assert_eq!(int.take_output(), vec![2, 3]);
    assert_eq!(int.advance(usize::MAX), Status::Halted);
    assert_eq!(int.take_output(), vec![4]);
}

#[test]
fn batching_does_not_reorder_output() {
    // Runs on both sides of every output, some of them a multiple of 256.
    let prog = format!(
        "++.{}.>>>+<<<.{}.>>>.<<<{}.",
        "+".repeat(256),
        "-".repeat(3),
        "+".repeat(257)
    );
    let (res, out) = run(&prog, b"");
    assert_eq!(res, Ok(()));
    assert_eq!(out, vec![2, 2, 2, 255, 1, 0]);
}

#[test]
fn reset_clears_tape_and_program_and_keeps_the_streams() {
    let mut int = Interpreter::new().bfin(b"xy".to_vec());
    int.load("+++,.>>+").unwrap();
    assert_eq!(int.advance(5), Status::Running);
    int.reset();
    assert_eq!(int.status(), Status::Halted);
    assert_eq!(int.take_output(), b"x");
    assert_eq!(int.run(".,."), Ok(()));
    assert_eq!(int.take_output(), vec![0, b'y']);
}

#[test]
fn bfout_is_appended_to() {
    let mut int = Interpreter::new().bfout(b"> ".to_vec());
    assert_eq!(int.run("+++."), Ok(()));
    assert_eq!(int.take_output(), vec![b'>', b' ', 3]);
    let mut other = Interpreter::default();
    assert_eq!(other.run("."), Ok(()));
    assert_eq!(other.take_output(), vec![0]);
}

#[test]
fn run_within_ends_like_run_where_the_limit_is_enough() {
    let mut int = Interpreter::new().bfin(b"a".to_vec());
    assert_eq!(int.run_within("+++.,.", 100), Ok(true));
    assert_eq!(int.take_output(), vec![3, b'a']);
    // Reset: the next run finds a blank tape.
    assert_eq!(int.run_within(".", 1), Ok(true));
    assert_eq!(int.take_output(), vec![0]);
    assert_eq!(int.run_within("+.,", 100), Err(Error::EndOfInput));
    assert_eq!(int.take_output(), vec![1]);
    assert_eq!(int.run_within("[", 100), Err(Error::MissingRightBracket));
    assert_eq!(int.run_within("]", 100), Err(Error::MissingLeftBracket));
    assert_eq!(int.run_within("", 0), Ok(true));
}

#[test]
fn run_within_stops_a_program_that_does_not_end() {
    let mut int = Interpreter::new();
    assert_eq!(int.run_within("+.[].", 1000), Ok(false));
    assert_eq!(int.take_output(), vec![1]);
    assert_eq!(int.status(), Status::Running);
    assert_eq!(int.advance(1000), Status::Running);
    // A program that ends, with too small a limit, is taken further.
    assert_eq!(int.run_within("+++[-].", 4), Ok(false));
    assert_eq!(int.advance(5), Status::Running);
    assert_eq!(int.advance(2), Status::Halted);
    assert_eq!(int.take_output(), vec![0]);
}

#[test]
fn bfin_replaces_the_input_that_was_left() {
    let mut int = Interpreter::new().bfin(b"abc".to_vec());
    assert_eq!(int.run(",."), Ok(()));
    let mut int = int.bfin(b"xy".to_vec());
    assert_eq!(int.run(",.,."), Ok(()));
    assert_eq!(int.run(","), Err(Error::EndOfInput));
    assert_eq!(int.take_output(), b"axy");
}
