use rusty_suite::vm::{ArithOp, Command, Step, StopReason, Vm};

/// Runs a program, doing the float work the machine hands out; returns what
/// was printed and why the run stopped.
fn run(program: &Vec<Command>) -> (Vec<String>, StopReason, Vm) {
    let mut vm = Vm::new();
    let mut out = Vec::new();
    for _ in 0..10_000 {
        assert!(!vm.faults(program));
        match vm.step(program) {
            Step::Continue => {}
            Step::Print(Some(bits)) => out.push(format!("{}", f32::from_bits(bits))),
            Step::Print(None) => out.push("finish".to_string()),
            Step::EmptyStack => out.push("Empty stack.".to_string()),
            Step::Compute(op, a, b) => {
                let (a, b) = (f32::from_bits(a), f32::from_bits(b));
                let r = match op {
                    ArithOp::Add => a + b,
                    ArithOp::Sub => a - b,
                };
                vm.complete(r.to_bits());
            }
            Step::Stop(reason) => return (out, reason, vm),
        }
    }
    panic!("program did not stop");
}

fn push(x: f32) -> Command {
    Command::Push(x.to_bits())
}

#[test]
fn adds_and_prints() {
    let p = vec![push(2.0), push(3.5), Command::Add, Command::Print, Command::Halt];
    let (out, reason, _) = run(&p);
    assert_eq!(out, vec!["5.5"]);
    assert_eq!(reason, StopReason::Halted);
}

#[test]
fn subtracts_second_from_first() {
    let p = vec![push(10.0), push(4.0), Command::Sub, Command::Print, Command::Halt];
    assert_eq!(run(&p).0, vec!["6"]);
}

#[test]
fn counts_down_with_jnz() {
    // ram[0] = 3; loop: print ram[0]; ram[0] -= 1; jump back while nonzero
    let p = vec![
        push(3.0),
        Command::Store(0),
        Command::Load(0),
        Command::Print,
        Command::Load(0),
        push(1.0),
        Command::Sub,
        Command::Dup,
        Command::Store(0),
        Command::Jnz(2),
        Command::Halt,
    ];
    let (out, reason, vm) = run(&p);
    assert_eq!(out, vec!["3", "2", "1"]);
    assert_eq!(reason, StopReason::Halted);
    assert_eq!(vm.ram()[0], 0.0f32.to_bits());
    assert!(vm.stack().is_empty());
}

#[test]
fn negative_zero_does_not_jump() {
    let p = vec![push(-0.0), Command::Jnz(5), push(1.0), Command::Print, Command::Halt];
    assert_eq!(run(&p).0, vec!["1"]);
}

#[test]
fn nan_jumps() {
    let p = vec![push(f32::NAN), Command::Jnz(3), Command::Halt, push(9.0), Command::Print, Command::Halt];
    assert_eq!(run(&p).0, vec!["9"]);
}

#[test]
fn underflow_stops_the_run() {
    let (out, reason, vm) = run(&vec![push(1.0), Command::Add]);
    assert!(out.is_empty());
    assert_eq!(reason, StopReason::StackUnderflow);
    assert!(vm.stack().is_empty());
    assert_eq!(run(&vec![Command::Jnz(0)]).1, StopReason::StackUnderflow);
    assert_eq!(run(&vec![Command::Store(3)]).1, StopReason::StackUnderflow);
}

#[test]
fn running_off_the_end_stops() {
    let (out, reason, _) = run(&vec![push(1.0), Command::Print]);
    assert_eq!(out, vec!["1"]);
    assert_eq!(reason, StopReason::PcOutOfRange);
}

#[test]
fn print_and_dup_on_empty_stack_go_on() {
    let (out, reason, _) = run(&vec![Command::Print, Command::Dup, Command::Halt]);
    assert_eq!(out, vec!["finish", "Empty stack."]);
    assert_eq!(reason, StopReason::Halted);
}

#[test]
fn store_then_load_gives_the_value_back() {
    let p = vec![push(7.25), Command::Store(255), Command::Load(255), Command::Print, Command::Halt];
    assert_eq!(run(&p).0, vec!["7.25"]);
}

#[test]
fn memory_starts_at_zero_and_faults_are_reported() {
    let vm = Vm::new();
    assert_eq!(vm.ram().len(), 256);
    assert!(vm.ram().iter().all(|&b| b == 0));
    assert!(vm.faults(&vec![Command::Load(256)]));
    assert!(!vm.faults(&vec![Command::Store(256)]));
    assert!(!vm.faults(&vec![Command::Load(255)]));
}

#[test]
fn dup_copies_and_halt_keeps_state() {
    let p = vec![push(4.0), Command::Dup, Command::Halt];
    let mut vm = Vm::new();
    assert_eq!(vm.step(&p), Step::Continue);
    assert_eq!(vm.step(&p), Step::Continue);
    assert_eq!(vm.stack().clone(), vec![4.0f32.to_bits(), 4.0f32.to_bits()]);
    assert_eq!(vm.step(&p), Step::Stop(StopReason::Halted));
    assert_eq!(vm.pc(), 2);
    assert_eq!(vm.step(&p), Step::Stop(StopReason::Halted));
}

#[test]
fn compute_waits_for_its_result() {
    let p = vec![push(1.0), push(2.0), Command::Add];
    let mut vm = Vm::new();
    vm.step(&p);
    vm.step(&p);
    assert_eq!(vm.step(&p), Step::Compute(ArithOp::Add, 1.0f32.to_bits(), 2.0f32.to_bits()));
    assert!(vm.is_awaiting());
    assert_eq!(vm.pc(), 2);
    vm.complete(3.0f32.to_bits());
    assert!(!vm.is_awaiting());
    assert_eq!(vm.pc(), 3);
    assert_eq!(vm.stack().clone(), vec![3.0f32.to_bits()]);
}
