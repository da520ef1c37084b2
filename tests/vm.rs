use brainfuck::cells::Cells;
use brainfuck::parse::{parse_program, Instruction, ParseError};
use brainfuck::{BrainfuckVM, BrainfuckVMOptions, RunError, Status};

fn vm(program: &str, input: Option<&str>, enable_breakpoints: bool) -> BrainfuckVM {
    BrainfuckVM::new(program, input, BrainfuckVMOptions { enable_breakpoints }).unwrap()
}

#[test]
fn two_cells_then_one() {
    let mut m = vm("++>+++>+", None, false);
    assert_eq!(m.run(), Ok(Status::Done));
    assert_eq!(m.cells().positive_cells(), &vec![2u8, 3, 1]);
    assert_eq!(m.cells().pointer(), 2);
    assert_eq!(m.status(), Status::Done);
}

#[test]
fn loop_runs_once() {
    let mut m = vm("+[-]", None, false);
    assert_eq!(m.run(), Ok(Status::Done));
    assert_eq!(m.cells().get_cell(), 0);
    assert_eq!(m.cells().positive_cells(), &vec![0u8]);
}

#[test]
fn zero_trip_loop() {
    let mut m = vm("[+]", None, false);
    assert_eq!(m.step(), Ok(Status::Done));
    assert_eq!(m.cells().get_cell(), 0);
    let mut n = vm("[+]", None, false);
    assert_eq!(n.run(), Ok(Status::Done));
    assert_eq!(n.cells().get_cell(), 0);
}

#[test]
fn input_exhausted() {
    let mut m = vm(",", None, false);
    assert_eq!(m.run(), Err(RunError::InputExhausted));
    let mut n = vm(",", Some(""), false);
    assert_eq!(n.step(), Err(RunError::InputExhausted));
    assert_eq!(n.status(), Status::NotStarted);
}

#[test]
fn unmatched_open_fails_translation() {
    assert!(matches!(
        BrainfuckVM::new("[", None, BrainfuckVMOptions::default()),
        Err(ParseError::UnmatchedOpen(0))
    ));
    assert_eq!(parse_program("["), Err(ParseError::UnmatchedOpen(0)));
}

#[test]
fn unmatched_close_fails_translation() {
    assert_eq!(parse_program("]"), Err(ParseError::UnmatchedClose(0)));
    assert_eq!(parse_program("a[]x]"), Err(ParseError::UnmatchedClose(2)));
    assert_eq!(parse_program("[[]"), Err(ParseError::UnmatchedOpen(0)));
}

#[test]
fn translation_skips_comments() {
    let p = parse_program("a+ b-\n>c<.,#!").unwrap();
    assert_eq!(
        p,
        vec![
            Instruction::CellIncrement,
            Instruction::CellDecrement,
            Instruction::PointerIncrement,
            Instruction::PointerDecrement,
            Instruction::CellOutput,
            Instruction::CellInput,
            Instruction::Breakpoint,
        ]
    );
    assert_eq!(parse_program("no code here"), Ok(vec![]));
}

#[test]
fn translation_resolves_nested_brackets() {
    let p = parse_program("[[]+]").unwrap();
    assert_eq!(
        p,
        vec![
            Instruction::Open(4),
            Instruction::Open(2),
            Instruction::Close(1),
            Instruction::CellIncrement,
            Instruction::Close(0),
        ]
    );
    let q = parse_program("[][]").unwrap();
    assert_eq!(
        q,
        vec![
            Instruction::Open(1),
            Instruction::Close(0),
            Instruction::Open(3),
            Instruction::Close(2),
        ]
    );
}

#[test]
fn balanced_program_translates_one_per_instruction() {
    let src = "++[>++[-]<-] x.";
    let p = parse_program(src).unwrap();
    assert_eq!(p.len(), src.chars().filter(|c| "<>+-.,[]#".contains(*c)).count());
}

#[test]
fn increment_then_decrement_is_identity() {
    let mut c = Cells::default();
    c.increment_cell();
    c.increment_cell();
    c.decrement_cell();
    c.increment_cell();
    assert_eq!(c.get_cell(), 2);
    let before = c.positive_cells().clone();
    c.increment_cell();
    c.decrement_cell();
    assert_eq!(c.positive_cells(), &before);
    c.decrement_cell();
    c.increment_cell();
    assert_eq!(c.positive_cells(), &before);
    assert_eq!(c.pointer(), 0);
}

#[test]
fn cell_arithmetic_wraps() {
    let mut c = Cells::default();
    c.decrement_cell();
    assert_eq!(c.get_cell(), 255);
    c.increment_cell();
    assert_eq!(c.get_cell(), 0);
    c.set_cell(255);
    c.increment_cell();
    assert_eq!(c.get_cell(), 0);
    let mut m = vm("-", None, false);
    assert_eq!(m.run(), Ok(Status::Done));
    assert_eq!(m.cells().get_cell(), 255);
}

#[test]
fn negative_positions_read_zero() {
    let mut c = Cells::default();
    c.decrement_pointer();
    assert_eq!(c.pointer(), -1);
    assert_eq!(c.get_cell(), 0);
    assert_eq!(c.negative_cells(), &vec![0u8]);
    c.decrement_pointer();
    c.increment_cell();
    assert_eq!(c.negative_cells(), &vec![0u8, 1]);
    c.increment_pointer();
    c.increment_pointer();
    c.increment_pointer();
    assert_eq!(c.pointer(), 1);
    assert_eq!(c.positive_cells(), &vec![0u8, 0]);
    c.decrement_pointer();
    assert_eq!(c.positive_cells(), &vec![0u8, 0]);
}

#[test]
fn lazy_growth_is_exact() {
    let mut m = vm("<<<>>>>", None, false);
    assert_eq!(m.run(), Ok(Status::Done));
    assert_eq!(m.cells().negative_cells(), &vec![0u8, 0, 0]);
    assert_eq!(m.cells().positive_cells(), &vec![0u8, 0]);
    assert_eq!(m.cells().pointer(), 1);
}

#[test]
fn straight_line_program_done_after_n_steps() {
    let mut m = vm("+>+<-", None, false);
    for _ in 0..4 {
        assert_eq!(m.step(), Ok(Status::NotStarted));
    }
    assert_eq!(m.step(), Ok(Status::Done));
    assert_eq!(m.cells().positive_cells(), &vec![0u8, 1]);
}

#[test]
fn breakpoint_pauses_and_resumes() {
    let mut m = vm("+#+", None, true);
    assert_eq!(m.run(), Ok(Status::Paused));
    assert_eq!(m.cells().get_cell(), 1);
    assert_eq!(m.run(), Ok(Status::Done));
    assert_eq!(m.cells().get_cell(), 2);
}

#[test]
fn breakpoint_as_last_instruction_finishes() {
    let mut m = vm("+#", None, true);
    assert_eq!(m.run(), Ok(Status::Done));
}

#[test]
fn disabled_breakpoint_has_no_effect() {
    let mut m = vm("+#+", None, false);
    let mut n = vm("++", None, false);
    assert_eq!(m.run(), Ok(Status::Done));
    assert_eq!(n.run(), Ok(Status::Done));
    assert_eq!(m.cells().positive_cells(), n.cells().positive_cells());
    assert_eq!(m.cells().pointer(), n.cells().pointer());
}

#[test]
fn output_and_input() {
    let mut m = vm(",.+.", Some("A"), false);
    assert_eq!(m.run(), Ok(Status::Done));
    assert_eq!(m.output(), &vec![65u8, 66]);
    assert_eq!(m.take_output(), vec![65u8, 66]);
    assert!(m.output().is_empty());
}

#[test]
fn input_is_consumed_in_order() {
    let mut m = vm(",>,>,", Some("abc"), false);
    assert_eq!(m.run(), Ok(Status::Done));
    assert_eq!(m.cells().positive_cells(), &vec![97u8, 98, 99]);
}

#[test]
fn hello_loop_output() {
    let mut m = vm("++++++++[>++++++++<-]>+.", None, false);
    assert_eq!(m.run(), Ok(Status::Done));
    assert_eq!(m.output(), &vec![65u8]);
}

#[test]
fn empty_program_is_done() {
    let mut m = vm("", None, false);
    assert_eq!(m.status(), Status::NotStarted);
    assert!(m.not_done());
    assert_eq!(m.step(), Ok(Status::Done));
    assert!(!m.not_done());
    let mut n = vm("", None, false);
    assert_eq!(n.run(), Ok(Status::Done));
}

#[test]
fn done_is_terminal() {
    let mut m = vm("+", None, false);
    assert_eq!(m.run(), Ok(Status::Done));
    assert_eq!(m.step(), Ok(Status::Done));
    assert_eq!(m.run(), Ok(Status::Done));
    assert_eq!(m.cells().get_cell(), 1);
    assert!(!m.running());
}

#[test]
fn step_from_paused() {
    let mut m = vm("#+", None, true);
    assert_eq!(m.step(), Ok(Status::Paused));
    assert!(!m.running());
    assert_eq!(m.step(), Ok(Status::Done));
    assert_eq!(m.cells().get_cell(), 1);
}
