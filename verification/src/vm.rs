//! A small stack machine with 256 cells of memory.
//!
//! Values are 32-bit floats; the machine holds them as their bit patterns
//! (`f32::to_bits`) and never computes with them: it moves them between the
//! program, the stack and the memory, tests them against zero, and hands
//! additions and subtractions to its caller (`Step::Compute`), which answers
//! with `Vm::complete`.

use vstd::prelude::*;

verus! {

/// Number of memory cells.
pub const RAM_SIZE: usize = 256;

/// One instruction of a program. `Push` carries the bit pattern of an `f32`.
#[derive(Clone, Copy, Debug, PartialEq, Eq, Structural)]
pub enum Command {
    Push(u32),
    Add,
    Print,
    Halt,
    Sub,
    Dup,
    Jnz(usize),
    Store(usize),
    Load(usize),
}

/// The two computations the machine asks its caller for.
#[derive(Clone, Copy, Debug, PartialEq, Eq, Structural)]
pub enum ArithOp {
    Add,
    Sub,
}

/// Why a run ends.
#[derive(Clone, Copy, Debug, PartialEq, Eq, Structural)]
pub enum StopReason {
    /// The program counter left the program.
    PcOutOfRange,
    /// An instruction needed a value and the stack had too few.
    StackUnderflow,
    /// A `Halt` instruction.
    Halted,
}

/// What one step did, and what the caller has to do about it.
#[derive(Clone, Copy, Debug, PartialEq, Eq, Structural)]
pub enum Step {
    /// Nothing to report; step again.
    Continue,
    /// A `Print`: the popped value, or `None` when the stack was empty.
    /// The run goes on.
    Print(Option<u32>),
    /// A `Dup` on an empty stack; the run goes on.
    EmptyStack,
    /// An `Add` or `Sub` popped `b`, then `a`: the caller computes `a op b`
    /// and hands the result to `Vm::complete`.
    Compute(ArithOp, u32, u32),
    /// The run is over.
    Stop(StopReason),
}

/// The abstract state of the machine.
#[verifier::ext_equal]
pub struct VmState {
    pub pc: usize,
    pub stack: Seq<u32>,
    pub ram: Seq<u32>,
    /// A `Compute` step is waiting for its result.
    pub awaiting: bool,
}

/// The machine.
pub struct Vm {
    pc: usize,
    stack: Vec<u32>,
    ram: Vec<u32>,
    awaiting: bool,
}

impl View for Vm {
    type V = VmState;

    closed spec fn view(&self) -> VmState {
        VmState { pc: self.pc, stack: self.stack@, ram: self.ram@, awaiting: self.awaiting }
    }
}

/// An `f32` with bit pattern `bits` differs from `0.0` exactly when some bit
/// other than the sign bit is set (both zeros compare equal to `0.0`, and a
/// NaN differs from everything).
pub open spec fn differs_from_zero(bits: u32) -> bool {
    bits % 0x8000_0000 != 0
}

/// The state the machine starts in.
pub open spec fn initial_state() -> VmState {
    VmState {
        pc: 0,
        stack: Seq::empty(),
        ram: Seq::new(RAM_SIZE as nat, |i: int| 0u32),
        awaiting: false,
    }
}

/// A state the machine can be in: its memory has `RAM_SIZE` cells, and a
/// pending computation belongs to an instruction of the program.
pub open spec fn well_formed(s: VmState) -> bool {
    &&& s.ram.len() == RAM_SIZE
    &&& s.awaiting ==> s.pc < usize::MAX
}

/// The next instruction reaches a memory cell that does not exist; the
/// machine cannot take that step.
pub open spec fn faults(s: VmState, program: Seq<Command>) -> bool {
    s.pc < program.len() && match program[s.pc as int] {
        Command::Store(a) => s.stack.len() > 0 && a >= RAM_SIZE,
        Command::Load(a) => a >= RAM_SIZE,
        _ => false,
    }
}

/// The top of a nonempty stack.
pub open spec fn top(stack: Seq<u32>) -> u32 {
    stack.last()
}

/// The effect of executing the instruction at `s.pc`.
pub open spec fn step_spec(s: VmState, program: Seq<Command>) -> (VmState, Step) {
    if s.pc >= program.len() {
        (s, Step::Stop(StopReason::PcOutOfRange))
    } else {
        let next = (s.pc + 1) as usize;
        let st = s.stack;
        match program[s.pc as int] {
            Command::Push(v) => (VmState { pc: next, stack: st.push(v), ..s }, Step::Continue),
            Command::Add | Command::Sub => {
                let op = if program[s.pc as int] == Command::Add {
                    ArithOp::Add
                } else {
                    ArithOp::Sub
                };
                if st.len() >= 2 {
                    (
                        VmState { stack: st.take(st.len() - 2), awaiting: true, ..s },
                        Step::Compute(op, st[st.len() - 2], st[st.len() - 1]),
                    )
                } else {
                    (VmState { stack: Seq::empty(), ..s }, Step::Stop(StopReason::StackUnderflow))
                }
            },
            Command::Print => {
                if st.len() > 0 {
                    (
                        VmState { pc: next, stack: st.drop_last(), ..s },
                        Step::Print(Some(top(st))),
                    )
                } else {
                    (VmState { pc: next, ..s }, Step::Print(None))
                }
            },
            Command::Halt => (s, Step::Stop(StopReason::Halted)),
            Command::Dup => {
                if st.len() > 0 {
                    (VmState { pc: next, stack: st.push(top(st)), ..s }, Step::Continue)
                } else {
                    (VmState { pc: next, ..s }, Step::EmptyStack)
                }
            },
            Command::Jnz(target) => {
                if st.len() > 0 {
                    let pc = if differs_from_zero(top(st)) {
                        target
                    } else {
                        next
                    };
                    (VmState { pc: pc, stack: st.drop_last(), ..s }, Step::Continue)
                } else {
                    (s, Step::Stop(StopReason::StackUnderflow))
                }
            },
            Command::Store(a) => {
                if st.len() > 0 {
                    (
                        VmState {
                            pc: next,
                            stack: st.drop_last(),
                            ram: s.ram.update(a as int, top(st)),
                            ..s
                        },
                        Step::Continue,
                    )
                } else {
                    (s, Step::Stop(StopReason::StackUnderflow))
                }
            },
            Command::Load(a) => (
                VmState { pc: next, stack: st.push(s.ram[a as int]), ..s },
                Step::Continue,
            ),
        }
    }
}

/// The state after the caller hands back the result of a `Compute` step.
pub open spec fn complete_spec(s: VmState, result: u32) -> VmState {
    VmState { pc: (s.pc + 1) as usize, stack: s.stack.push(result), awaiting: false, ..s }
}

// ---------------------------------------------------------------------------
// Laws
// ---------------------------------------------------------------------------

/// Storing the top of the stack at cell `a` and loading cell `a` right after
/// gives back the stored value: the stack is as it was, and cell `a` holds
/// that value.
pub proof fn law_store_then_load(s: VmState, program: Seq<Command>, a: usize)
    requires
        program.len() <= usize::MAX,
        well_formed(s),
        s.pc + 1 < program.len(),
        program[s.pc as int] == Command::Store(a),
        program[s.pc + 1] == Command::Load(a),
        a < RAM_SIZE,
        s.stack.len() > 0,
    ensures
        ({
            let (s1, r1) = step_spec(s, program);
            let (s2, r2) = step_spec(s1, program);
            &&& r1 == Step::Continue
            &&& r2 == Step::Continue
            &&& s2.stack == s.stack
            &&& s2.ram == s.ram.update(a as int, top(s.stack))
            &&& s2.ram[a as int] == top(s.stack)
            &&& s2.pc == s.pc + 2
        }),
{
    let (s1, r1) = step_spec(s, program);
    assert(s1.stack.push(s1.ram[a as int]) =~= s.stack);
}

/// A `Print` right after a `Push` prints the pushed value and leaves the
/// stack as it was.
pub proof fn law_push_then_print(s: VmState, program: Seq<Command>, v: u32)
    requires
        program.len() <= usize::MAX,
        s.pc + 1 < program.len(),
        program[s.pc as int] == Command::Push(v),
        program[s.pc + 1] == Command::Print,
    ensures
        ({
            let (s1, r1) = step_spec(s, program);
            let (s2, r2) = step_spec(s1, program);
            &&& r2 == Step::Print(Some(v))
            &&& s2.stack == s.stack
            &&& s2.ram == s.ram
            &&& s2.pc == s.pc + 2
        }),
{
    let (s1, r1) = step_spec(s, program);
    assert(s1.stack.drop_last() =~= s.stack);
}

/// An `Add` or `Sub` followed by its result replaces the two values on top of
/// the stack by the result and moves to the next instruction.
pub proof fn law_compute_then_complete(s: VmState, program: Seq<Command>, result: u32)
    requires
        program.len() <= usize::MAX,
        s.pc < program.len(),
        program[s.pc as int] == Command::Add || program[s.pc as int] == Command::Sub,
        s.stack.len() >= 2,
    ensures
        ({
            let (s1, r1) = step_spec(s, program);
            let s2 = complete_spec(s1, result);
            &&& r1 is Compute
            &&& s2.stack == s.stack.take(s.stack.len() - 2).push(result)
            &&& s2.ram == s.ram
            &&& s2.pc == s.pc + 1
            &&& !s2.awaiting
        }),
{
}

/// `Dup` on a nonempty stack pushes a copy of its top.
pub proof fn law_dup_copies_top(s: VmState, program: Seq<Command>)
    requires
        s.pc < program.len(),
        program[s.pc as int] == Command::Dup,
        s.stack.len() > 0,
    ensures
        ({
            let (s1, r1) = step_spec(s, program);
            &&& r1 == Step::Continue
            &&& s1.stack.len() == s.stack.len() + 1
            &&& s1.stack.drop_last() == s.stack
            &&& top(s1.stack) == top(s.stack)
        }),
{
    let (s1, r1) = step_spec(s, program);
    assert(s1.stack.drop_last() =~= s.stack);
}

/// Only `Store` writes memory.
pub proof fn law_only_store_writes_memory(s: VmState, program: Seq<Command>)
    requires
        !(s.pc < program.len() && program[s.pc as int] is Store),
    ensures
        step_spec(s, program).0.ram == s.ram,
{
}

/// `Jnz` pops the top of the stack and jumps to its target exactly when the
/// popped value differs from `0.0`: the only bit patterns equal to `0.0` are
/// `+0.0` (`0`) and `-0.0` (`0x8000_0000`); every other value, negative ones
/// and NaNs included, jumps. A zero falls through to the next instruction.
pub proof fn law_jnz_jumps_unless_zero(s: VmState, program: Seq<Command>, target: usize)
    requires
        program.len() <= usize::MAX,
        s.pc < program.len(),
        program[s.pc as int] == Command::Jnz(target),
        s.stack.len() > 0,
    ensures
        ({
            let (s1, r1) = step_spec(s, program);
            let v = s.stack[s.stack.len() - 1];
            &&& r1 == Step::Continue
            &&& s1.stack == s.stack.take(s.stack.len() - 1)
            &&& s1.ram == s.ram
            &&& (v != 0 && v != 0x8000_0000u32) ==> s1.pc == target
            &&& (v == 0 || v == 0x8000_0000u32) ==> s1.pc == s.pc + 1
        }),
{
    let v = s.stack[s.stack.len() - 1];
    assert((v != 0 && v != 0x8000_0000u32) ==> v % 0x8000_0000 != 0);
    assert((v == 0 || v == 0x8000_0000u32) ==> v % 0x8000_0000 == 0);
    assert(s.stack.drop_last() =~= s.stack.take(s.stack.len() - 1));
}

/// A negative nonzero value on top of the stack makes `Jnz` jump: the sign
/// of the value plays no part.
pub proof fn law_jnz_ignores_sign(s: VmState, program: Seq<Command>, target: usize)
    requires
        program.len() <= usize::MAX,
        s.pc < program.len(),
        program[s.pc as int] == Command::Jnz(target),
        s.stack.len() > 0,
        s.stack[s.stack.len() - 1] >= 0x8000_0000u32,
        s.stack[s.stack.len() - 1] != 0x8000_0000u32,
    ensures
        step_spec(s, program).0.pc == target,
{
    law_jnz_jumps_unless_zero(s, program, target);
}

/// `Add` and `Sub` hand out the value under the top as the left operand and
/// the top as the right one, with the operation the instruction names, and
/// wait for the result without moving on.
pub proof fn law_arith_operands(s: VmState, program: Seq<Command>)
    requires
        s.pc < program.len(),
        program[s.pc as int] == Command::Add || program[s.pc as int] == Command::Sub,
        s.stack.len() >= 2,
    ensures
        ({
            let (s1, r1) = step_spec(s, program);
            let a = s.stack[s.stack.len() - 2];
            let b = s.stack[s.stack.len() - 1];
            &&& program[s.pc as int] == Command::Add ==> r1 == Step::Compute(ArithOp::Add, a, b)
            &&& program[s.pc as int] == Command::Sub ==> r1 == Step::Compute(ArithOp::Sub, a, b)
            &&& s1.awaiting
            &&& s1.pc == s.pc
            &&& s1.stack.len() == s.stack.len() - 2
        }),
{
}

/// A run stops when the program counter leaves the program, and when an
/// instruction finds too few values: `Add` or `Sub` with fewer than two,
/// `Jnz` or `Store` with none.
pub proof fn law_stops(s: VmState, program: Seq<Command>)
    ensures
        s.pc >= program.len() ==> step_spec(s, program).1 == Step::Stop(StopReason::PcOutOfRange),
        s.pc < program.len() && s.stack.len() < 2 && (program[s.pc as int] == Command::Add
            || program[s.pc as int] == Command::Sub) ==> step_spec(s, program).1 == Step::Stop(
            StopReason::StackUnderflow,
        ),
        s.pc < program.len() && s.stack.len() == 0 && (program[s.pc as int] is Jnz
            || program[s.pc as int] is Store) ==> step_spec(s, program).1 == Step::Stop(
            StopReason::StackUnderflow,
        ),
{
}

/// `Print` and `Dup` on an empty stack report it and go on to the next
/// instruction; `Load` pushes the content of its cell; `Push` pushes its value.
pub proof fn law_moves(s: VmState, program: Seq<Command>)
    requires
        program.len() <= usize::MAX,
        s.pc < program.len(),
        well_formed(s),
    ensures
        ({
            let (s1, r1) = step_spec(s, program);
            &&& (program[s.pc as int] == Command::Print && s.stack.len() == 0) ==> (r1
                == Step::Print(None) && s1.pc == s.pc + 1)
            &&& (program[s.pc as int] == Command::Dup && s.stack.len() == 0) ==> (r1
                == Step::EmptyStack && s1.pc == s.pc + 1 && s1.stack == s.stack)
            &&& (program[s.pc as int] is Load && program[s.pc as int]->Load_0 < RAM_SIZE) ==> (s1.stack
                == s.stack.push(s.ram[program[s.pc as int]->Load_0 as int]) && s1.pc == s.pc + 1
                && r1 == Step::Continue)
            &&& (program[s.pc as int] is Push) ==> (s1.stack == s.stack.push(
                program[s.pc as int]->Push_0,
            ) && s1.pc == s.pc + 1 && r1 == Step::Continue)
        }),
{
}

/// A `Halt` stops the run and changes nothing, however often it is stepped.
pub proof fn law_halt_is_final(s: VmState, program: Seq<Command>)
    requires
        s.pc < program.len(),
        program[s.pc as int] == Command::Halt,
    ensures
        step_spec(s, program) == (s, Step::Stop(StopReason::Halted)),
        step_spec(step_spec(s, program).0, program) == step_spec(s, program),
{
}

/// Every step keeps the machine well formed.
pub proof fn law_steps_keep_well_formed(s: VmState, program: Seq<Command>, result: u32)
    requires
        program.len() <= usize::MAX,
        well_formed(s),
        !s.awaiting,
        !faults(s, program),
    ensures
        well_formed(step_spec(s, program).0),
        step_spec(s, program).0.awaiting ==> well_formed(
            complete_spec(step_spec(s, program).0, result),
        ),
{
}

impl Vm {
    /// A machine at the first instruction, with an empty stack and every
    /// memory cell holding `0.0`.
    pub fn new() -> (vm: Vm)
        ensures
            vm@ == initial_state(),
    {
        let mut ram: Vec<u32> = Vec::new();
        let mut i: usize = 0;
        while i < RAM_SIZE
            invariant
                0 <= i <= RAM_SIZE,
                ram@ == Seq::new(i as nat, |j: int| 0u32),
            decreases RAM_SIZE - i,
        {
            ram.push(0);
            i = i + 1;
        }
        Vm { pc: 0, stack: Vec::new(), ram, awaiting: false }
    }

    /// The program counter.
    pub fn pc(&self) -> (r: usize)
        ensures
            r == self@.pc,
    {
        self.pc
    }

    /// The stack, bottom first.
    pub fn stack(&self) -> (r: &Vec<u32>)
        ensures
            r@ == self@.stack,
    {
        &self.stack
    }

    /// The memory cells.
    pub fn ram(&self) -> (r: &Vec<u32>)
        ensures
            r@ == self@.ram,
    {
        &self.ram
    }

    /// Whether a `Compute` step waits for its result.
    pub fn is_awaiting(&self) -> (r: bool)
        ensures
            r == self@.awaiting,
    {
        self.awaiting
    }

    /// Whether the next instruction reaches a memory cell that does not exist.
    pub fn faults(&self, program: &Vec<Command>) -> (r: bool)
        ensures
            r == faults(self@, program@),
    {
        if self.pc >= program.len() {
            return false;
        }
        match program[self.pc] {
            Command::Store(a) => self.stack.len() > 0 && a >= RAM_SIZE,
            Command::Load(a) => a >= RAM_SIZE,
            _ => false,
        }
    }

    /// Executes the instruction at the program counter.
    pub fn step(&mut self, program: &Vec<Command>) -> (r: Step)
        requires
            well_formed(old(self)@),
            !old(self)@.awaiting,
            !faults(old(self)@, program@),
        ensures
            (final(self)@, r) == step_spec(old(self)@, program@),
            well_formed(final(self)@),
    {
        if self.pc >= program.len() {
            return Step::Stop(StopReason::PcOutOfRange);
        }
        let next = self.pc + 1;
        match program[self.pc] {
            Command::Push(v) => {
                self.stack.push(v);
                self.pc = next;
                Step::Continue
            },
            Command::Add => self.start_compute(ArithOp::Add),
            Command::Sub => self.start_compute(ArithOp::Sub),
            Command::Print => {
                self.pc = next;
                match self.stack.pop() {
                    Some(v) => Step::Print(Some(v)),
                    None => Step::Print(None),
                }
            },
            Command::Halt => Step::Stop(StopReason::Halted),
            Command::Dup => {
                self.pc = next;
                match self.stack.pop() {
                    Some(v) => {
                        self.stack.push(v);
                        self.stack.push(v);
                        Step::Continue
                    },
                    None => Step::EmptyStack,
                }
            },
            Command::Jnz(target) => {
                match self.stack.pop() {
                    Some(v) => {
                        if v % 0x8000_0000 != 0 {
                            self.pc = target;
                        } else {
                            self.pc = next;
                        }
                        Step::Continue
                    },
                    None => Step::Stop(StopReason::StackUnderflow),
                }
            },
            Command::Store(a) => {
                match self.stack.pop() {
                    Some(v) => {
                        self.ram.set(a, v);
                        self.pc = next;
                        Step::Continue
                    },
                    None => Step::Stop(StopReason::StackUnderflow),
                }
            },
            Command::Load(a) => {
                let v = self.ram[a];
                self.stack.push(v);
                self.pc = next;
                Step::Continue
            },
        }
    }

    fn start_compute(&mut self, op: ArithOp) -> (r: Step)
        requires
            well_formed(old(self)@),
            old(self)@.pc < usize::MAX,
        ensures
            final(self)@.pc == old(self)@.pc,
            final(self)@.ram == old(self)@.ram,
            old(self)@.stack.len() >= 2 ==> {
                &&& final(self)@.stack == old(self)@.stack.take(old(self)@.stack.len() - 2)
                &&& final(self)@.awaiting
                &&& r == Step::Compute(
                    op,
                    old(self)@.stack[old(self)@.stack.len() - 2],
                    old(self)@.stack[old(self)@.stack.len() - 1],
                )
            },
            old(self)@.stack.len() < 2 ==> {
                &&& final(self)@.stack == Seq::<u32>::empty()
                &&& final(self)@.awaiting == old(self)@.awaiting
                &&& r == Step::Stop(StopReason::StackUnderflow)
            },
    {
        let ghost st = self.stack@;
        match (self.stack.pop(), self.stack.pop()) {
            (Some(b), Some(a)) => {
                proof {
                    assert(self.stack@ == st.take(st.len() - 2));
                }
                self.awaiting = true;
                Step::Compute(op, a, b)
            },
            _ => {
                proof {
                    assert(self.stack@ =~= Seq::<u32>::empty());
                }
                Step::Stop(StopReason::StackUnderflow)
            },
        }
    }

    /// Takes the result of the pending `Compute` step: pushes it and moves to
    /// the next instruction.
    pub fn complete(&mut self, result: u32)
        requires
            well_formed(old(self)@),
            old(self)@.awaiting,
        ensures
            final(self)@ == complete_spec(old(self)@, result),
            well_formed(final(self)@),
    {
        self.stack.push(result);
        self.pc = self.pc + 1;
        self.awaiting = false;
    }
}

} // verus!
