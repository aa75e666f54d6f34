//! The FLUX-C virtual machine that runs decoded 13-byte instructions.
//!
//! A host drives it: while [`Vm::is_stopped`] is false it reads
//! [`Vm::request`], computes the numeric answer, and hands it to [`Vm::step`].
//! One instruction is one step, except `Pack8`, which takes ten: it opens,
//! tests the eight popped values one by one, and finally pushes the packed
//! byte once the host has turned it into a word.
//!
//! `Or` pops only its second operand and pushes the disjunction over the
//! first, and `Unpack` leaves the word it unpacks under its eight bits.
//! `Jmp`, a taken `Jnz` and `Call` continue at instruction `arg0`; a taken
//! `Jz` continues after it, at `arg0 + 1`.

use vstd::prelude::*;
use crate::word::{ArithOp, CompareOp, Request, Reply, truth_word, bool_word, ZERO_WORD, ONE_WORD};
use crate::bytecode::{Instr, Op, decode, decode_program};
use crate::stack::{
    pop, top, second, pop2, local_or_zero, store_local, pop_word, peek_top, peek_second, load_local,
    store_word,
};

verus! {

/// How many instructions a run may start before it stops.
pub const RUN_CYCLES: usize = 100_000;

/// Where the machine is within an instruction.
#[derive(Clone, Copy, Debug, PartialEq, Eq, Structural)]
pub enum Phase {
    /// Between instructions.
    Ready,
    /// Inside `Pack8`: bits below `bit` are tested, `packed` holds them.
    Packing { bit: u8, packed: u8 },
    /// Inside `Pack8`: all eight bits are tested; the word of `packed` is pushed next.
    Pushing { packed: u8 },
}

/// The machine.
pub struct Vm {
    code: Vec<Instr>,
    pub stack: Vec<u64>,
    locals: Vec<u64>,
    pc: usize,
    pub checks: u64,
    pub violations: u64,
    pub halted: bool,
    phase: Phase,
    budget: usize,
}

/// The machine's state as mathematical values.
#[verifier::ext_equal]
pub struct VmState {
    pub code: Seq<Instr>,
    pub stack: Seq<u64>,
    pub locals: Seq<u64>,
    pub pc: usize,
    pub checks: u64,
    pub violations: u64,
    pub halted: bool,
    pub phase: Phase,
    /// Instructions that may still start.
    pub budget: usize,
}

impl View for Vm {
    type V = VmState;

    closed spec fn view(&self) -> VmState {
        VmState {
            code: self.code@,
            stack: self.stack@,
            locals: self.locals@,
            pc: self.pc,
            checks: self.checks,
            violations: self.violations,
            halted: self.halted,
            phase: self.phase,
            budget: self.budget,
        }
    }
}

/// The eight words `Unpack` pushes for a byte: bit 0 first, one for a set bit, zero for a clear one.
pub open spec fn unpack_words(b: u8) -> Seq<u64> {
    Seq::new(8, |n: int| truth_word((b >> (n as u8)) & 1u8 == 1u8))
}

/// The machine invariant: a packing phase has a bit index below eight.
pub open spec fn well_formed(s: VmState) -> bool {
    match s.phase {
        Phase::Packing { bit, .. } => bit < 8,
        _ => true,
    }
}

/// The machine takes no more steps: it is between instructions and has run out of
/// budget, halted, or moved past the code.
pub open spec fn stopped(s: VmState) -> bool {
    s.phase == Phase::Ready && (s.budget == 0 || s.halted || s.pc >= s.code.len())
}

/// The next step starts the instruction at `pc`.
pub open spec fn at_instruction(s: VmState) -> bool {
    !stopped(s) && s.phase == Phase::Ready
}

/// The next step executes a `Check` or an `Assert`, which count.
pub open spec fn next_counts(s: VmState) -> bool {
    at_instruction(s) && (s.code[s.pc as int].op == Op::Check || s.code[s.pc as int].op
        == Op::Assert)
}

/// What the next step needs: the counters must have room where it counts.
pub open spec fn can_step(s: VmState) -> bool {
    &&& well_formed(s)
    &&& next_counts(s) ==> s.checks < u64::MAX && s.violations < u64::MAX
}

pub open spec fn arith_op(op: Op) -> Option<ArithOp> {
    match op {
        Op::Add => Some(ArithOp::Add),
        Op::Sub => Some(ArithOp::Sub),
        Op::Mul => Some(ArithOp::Mul),
        Op::Div => Some(ArithOp::Div),
        _ => None,
    }
}

pub open spec fn compare_op(op: Op) -> Option<CompareOp> {
    match op {
        Op::Lt => Some(CompareOp::Lt),
        Op::Gt => Some(CompareOp::Gt),
        Op::Eq => Some(CompareOp::Eq),
        Op::Le => Some(CompareOp::Le),
        Op::Ge => Some(CompareOp::Ge),
        Op::Ne => Some(CompareOp::Ne),
        _ => None,
    }
}

/// What the host must compute before the next step.
pub open spec fn request_of(s: VmState) -> Request {
    if stopped(s) {
        Request::Nothing
    } else {
        match s.phase {
            Phase::Packing { .. } => Request::Truth(top(s.stack)),
            Phase::Pushing { packed } => Request::IndexToWord(packed as usize),
            Phase::Ready => {
                let op = s.code[s.pc as int].op;
                if arith_op(op) is Some {
                    Request::Arith(arith_op(op)->0, second(s.stack), top(s.stack))
                } else if compare_op(op) is Some {
                    Request::Compare(compare_op(op)->0, second(s.stack), top(s.stack))
                } else {
                    match op {
                        Op::And | Op::Or => Request::Truths(second(s.stack), top(s.stack)),
                        Op::Not | Op::Jz | Op::Jnz | Op::Check | Op::Assert => Request::Truth(
                            top(s.stack),
                        ),
                        Op::Unpack => Request::WordToByte(top(s.stack)),
                        Op::Call => Request::IndexToWord((s.pc + 1) as usize),
                        Op::Ret => Request::WordToIndex(top(s.stack)),
                        _ => Request::Nothing,
                    }
                }
            },
        }
    }
}

/// Where a taken `Jz` goes: to the instruction after instruction `arg0`.
pub open spec fn zero_jump_target(ins: Instr) -> usize {
    (ins.arg0 + 1) as usize
}

/// The effect of instruction `ins` on `s`, whose `pc` already points past it, given the host's reply.
pub open spec fn execute(s: VmState, ins: Instr, r: Reply) -> VmState {
    let (v, rest) = pop(s.stack);
    let flag = r.flag_of();
    match ins.op {
        Op::Load => VmState { stack: s.stack.push(local_or_zero(s.locals, ins.arg0 as int)), ..s },
        Op::Store => VmState { stack: rest, locals: store_local(s.locals, ins.arg0 as int, v), ..s },
        Op::Const => VmState { stack: s.stack.push(ins.imm), ..s },
        Op::Add | Op::Sub | Op::Mul | Op::Div => VmState {
            stack: pop2(s.stack).push(r.word_of()),
            ..s
        },
        Op::And => VmState {
            stack: pop2(s.stack).push(truth_word(r.flags_of().0 && r.flags_of().1)),
            ..s
        },
        Op::Or => VmState {
            stack: rest.push(truth_word(r.flags_of().0 || r.flags_of().1)),
            ..s
        },
        Op::Not => VmState { stack: rest.push(truth_word(!flag)), ..s },
        Op::Lt | Op::Gt | Op::Eq | Op::Le | Op::Ge | Op::Ne => VmState {
            stack: pop2(s.stack).push(truth_word(flag)),
            ..s
        },
        Op::Jmp => VmState { pc: ins.arg0 as usize, ..s },
        Op::Jz => VmState { stack: rest, pc: if !flag { zero_jump_target(ins) } else { s.pc }, ..s },
        Op::Jnz => VmState { stack: rest, pc: if flag { ins.arg0 as usize } else { s.pc }, ..s },
        Op::Pack8 => VmState { phase: Phase::Packing { bit: 0, packed: 0 }, ..s },
        Op::Unpack => VmState { stack: s.stack + unpack_words(r.byte_of()), ..s },
        Op::Check => VmState {
            stack: rest,
            checks: (s.checks + 1) as u64,
            violations: if !flag { (s.violations + 1) as u64 } else { s.violations },
            ..s
        },
        Op::Assert => VmState {
            stack: rest,
            checks: (s.checks + 1) as u64,
            violations: if !flag { (s.violations + 1) as u64 } else { s.violations },
            halted: if !flag { true } else { s.halted },
            ..s
        },
        Op::Halt => VmState { halted: true, ..s },
        Op::Nop => s,
        Op::Call => VmState { stack: s.stack.push(r.word_of()), pc: ins.arg0 as usize, ..s },
        Op::Ret => VmState { stack: rest, pc: r.index_of(), ..s },
    }
}

/// The state a run starts from: the code, the inputs as locals, and nothing
/// else carried over from before.
pub open spec fn run_start(code: Seq<Instr>, inputs: Seq<u64>) -> VmState {
    VmState {
        code,
        stack: Seq::empty(),
        locals: inputs,
        pc: 0,
        checks: 0,
        violations: 0,
        halted: false,
        phase: Phase::Ready,
        budget: RUN_CYCLES,
    }
}

/// One step of the machine given the host's reply to [`request_of`]; a stopped machine stays as it is.
pub open spec fn step_state(s: VmState, r: Reply) -> VmState {
    if stopped(s) {
        s
    } else {
        match s.phase {
            Phase::Pushing { .. } => VmState {
                stack: s.stack.push(r.word_of()),
                phase: Phase::Ready,
                ..s
            },
            Phase::Packing { bit, packed } => {
                let p = if r.flag_of() {
                    packed | (1u8 << bit)
                } else {
                    packed
                };
                VmState {
                    stack: pop(s.stack).1,
                    phase: if bit >= 7 {
                        Phase::Pushing { packed: p }
                    } else {
                        Phase::Packing { bit: (bit + 1) as u8, packed: p }
                    },
                    ..s
                }
            },
            Phase::Ready => execute(
                VmState { pc: (s.pc + 1) as usize, budget: (s.budget - 1) as usize, ..s },
                s.code[s.pc as int],
                r,
            ),
        }
    }
}

impl Vm {
    /// An empty machine: no code, empty stack and locals, counters at zero, not halted, no budget.
    pub fn new() -> (vm: Vm)
        ensures
            vm@ == (VmState {
                code: Seq::empty(),
                stack: Seq::empty(),
                locals: Seq::empty(),
                pc: 0,
                checks: 0,
                violations: 0,
                halted: false,
                phase: Phase::Ready,
                budget: 0,
            }),
            well_formed(vm@),
    {
        Vm {
            code: Vec::new(),
            stack: Vec::with_capacity(64),
            locals: Vec::with_capacity(32),
            pc: 0,
            checks: 0,
            violations: 0,
            halted: false,
            phase: Phase::Ready,
            budget: 0,
        }
    }

    /// Replaces the code by the program that `bytes` encodes (see
    /// [`decode_program`]); nothing else changes.
    pub fn load_bytecode(&mut self, bytes: &[u8])
        ensures
            final(self)@ == (VmState { code: decode_program(bytes@), ..old(self)@ }),
    {
        self.code = decode(bytes);
    }

    /// Starts a run: the inputs become the locals, the stack empties, `pc`, the
    /// counters and the halt flag reset, and [`RUN_CYCLES`] instructions may start.
    pub fn prepare_run(&mut self, inputs: &[u64])
        ensures
            final(self)@ == run_start(old(self)@.code, inputs@),
    {
        self.locals = vstd::slice::slice_to_vec(inputs);
        self.stack.clear();
        self.pc = 0;
        self.checks = 0;
        self.violations = 0;
        self.halted = false;
        self.phase = Phase::Ready;
        self.budget = RUN_CYCLES;
    }

    /// Lets up to `max_cycles` further instructions start; nothing else changes.
    pub fn set_budget(&mut self, max_cycles: usize)
        ensures
            final(self)@ == (VmState { budget: max_cycles, ..old(self)@ }),
    {
        self.budget = max_cycles;
    }

    /// The operand stack, bottom first.
    pub fn stack(&self) -> (r: &Vec<u64>)
        ensures
            r@ == self@.stack,
    {
        &self.stack
    }

    /// The checks counted so far.
    pub fn checks(&self) -> (r: u64)
        ensures
            r == self@.checks,
    {
        self.checks
    }

    /// The violations counted so far.
    pub fn violations(&self) -> (r: u64)
        ensures
            r == self@.violations,
    {
        self.violations
    }

    /// Whether an `Assert` failed or a `Halt` ran.
    pub fn halted(&self) -> (r: bool)
        ensures
            r == self@.halted,
    {
        self.halted
    }

    /// Whether the machine takes no more steps.
    pub fn is_stopped(&self) -> (b: bool)
        ensures
            b == stopped(self@),
    {
        matches!(self.phase, Phase::Ready) && (self.budget == 0 || self.halted || self.pc
            >= self.code.len())
    }

    /// Whether the next step counts a check while a counter is full, so that it must not be taken.
    pub fn counter_full(&self) -> (b: bool)
        requires
            well_formed(self@),
        ensures
            b == !can_step(self@),
    {
        if self.is_stopped() || !matches!(self.phase, Phase::Ready) {
            return false;
        }
        let op = self.code[self.pc].op;
        (matches!(op, Op::Check) || matches!(op, Op::Assert)) && (self.checks == u64::MAX
            || self.violations == u64::MAX)
    }

    fn top(&self) -> (v: u64)
        ensures
            v == top(self@.stack),
    {
        peek_top(&self.stack)
    }

    fn second(&self) -> (v: u64)
        ensures
            v == second(self@.stack),
    {
        peek_second(&self.stack)
    }

    fn pop_word(&mut self) -> (v: u64)
        ensures
            v == pop(old(self)@.stack).0,
            final(self)@ == (VmState { stack: pop(old(self)@.stack).1, ..old(self)@ }),
    {
        pop_word(&mut self.stack)
    }

    fn push_word(&mut self, v: u64)
        ensures
            final(self)@ == (VmState { stack: old(self)@.stack.push(v), ..old(self)@ }),
    {
        self.stack.push(v);
    }

    /// What the host must compute before the next step.
    pub fn request(&self) -> (q: Request)
        ensures
            q == request_of(self@),
    {
        if self.is_stopped() {
            return Request::Nothing;
        }
        match self.phase {
            Phase::Packing { .. } => Request::Truth(self.top()),
            Phase::Pushing { packed } => Request::IndexToWord(packed as usize),
            Phase::Ready => {
                let len = self.code.len();
                assert(self.pc < len);
                let op = self.code[self.pc].op;
                match op {
                    Op::Add => Request::Arith(ArithOp::Add, self.second(), self.top()),
                    Op::Sub => Request::Arith(ArithOp::Sub, self.second(), self.top()),
                    Op::Mul => Request::Arith(ArithOp::Mul, self.second(), self.top()),
                    Op::Div => Request::Arith(ArithOp::Div, self.second(), self.top()),
                    Op::Lt => Request::Compare(CompareOp::Lt, self.second(), self.top()),
                    Op::Gt => Request::Compare(CompareOp::Gt, self.second(), self.top()),
                    Op::Eq => Request::Compare(CompareOp::Eq, self.second(), self.top()),
                    Op::Le => Request::Compare(CompareOp::Le, self.second(), self.top()),
                    Op::Ge => Request::Compare(CompareOp::Ge, self.second(), self.top()),
                    Op::Ne => Request::Compare(CompareOp::Ne, self.second(), self.top()),
                    Op::And | Op::Or => Request::Truths(self.second(), self.top()),
                    Op::Not | Op::Jz | Op::Jnz | Op::Check | Op::Assert => Request::Truth(
                        self.top(),
                    ),
                    Op::Unpack => Request::WordToByte(self.top()),
                    Op::Call => Request::IndexToWord(self.pc + 1),
                    Op::Ret => Request::WordToIndex(self.top()),
                    _ => Request::Nothing,
                }
            },
        }
    }

    fn execute_instr(&mut self, ins: Instr, r: Reply)
        requires
            (ins.op == Op::Check || ins.op == Op::Assert) ==> old(self).checks < u64::MAX
                && old(self).violations < u64::MAX,
        ensures
            final(self)@ == execute(old(self)@, ins, r),
    {
        let ghost s = self@;
        match ins.op {
            Op::Load => {
                let v = load_local(&self.locals, ins.arg0 as usize);
                self.push_word(v);
            },
            Op::Store => {
                let v = self.pop_word();
                store_word(&mut self.locals, ins.arg0 as usize, v);
            },
            Op::Const => self.push_word(ins.imm),
            Op::Add | Op::Sub | Op::Mul | Op::Div => {
                self.pop_word();
                self.pop_word();
                self.push_word(r.word());
            },
            Op::And => {
                self.pop_word();
                self.pop_word();
                let (a, b) = r.flags();
                self.push_word(bool_word(a && b));
            },
            Op::Or => {
                self.pop_word();
                let (a, b) = r.flags();
                self.push_word(bool_word(a || b));
            },
            Op::Not => {
                self.pop_word();
                self.push_word(bool_word(!r.flag()));
            },
            Op::Lt | Op::Gt | Op::Eq | Op::Le | Op::Ge | Op::Ne => {
                self.pop_word();
                self.pop_word();
                self.push_word(bool_word(r.flag()));
            },
            Op::Jmp => {
                self.pc = ins.arg0 as usize;
            },
            Op::Jz => {
                self.pop_word();
                if !r.flag() {
                    self.pc = ins.arg0 as usize + 1;
                }
            },
            Op::Jnz => {
                self.pop_word();
                if r.flag() {
                    self.pc = ins.arg0 as usize;
                }
            },
            Op::Pack8 => {
                self.phase = Phase::Packing { bit: 0, packed: 0 };
            },
            Op::Unpack => {
                let b = r.byte();
                let ghost base = self@.stack;
                let mut n: u8 = 0;
                while n < 8
                    invariant
                        n <= 8,
                        self@ == (VmState { stack: self@.stack, ..s }) ,
                        self@.stack == base + unpack_words(b).take(n as int),
                    decreases 8 - n,
                {
                    self.push_word(bool_word((b >> n) & 1u8 == 1u8));
                    assert(unpack_words(b).take(n + 1) == unpack_words(b).take(n as int).push(
                        truth_word((b >> n) & 1u8 == 1u8),
                    ));
                    n = n + 1;
                }
                assert(unpack_words(b).take(8) == unpack_words(b));
            },
            Op::Check => {
                self.checks = self.checks + 1;
                self.pop_word();
                if !r.flag() {
                    self.violations = self.violations + 1;
                }
            },
            Op::Assert => {
                self.checks = self.checks + 1;
                self.pop_word();
                if !r.flag() {
                    self.violations = self.violations + 1;
                    self.halted = true;
                }
            },
            Op::Halt => {
                self.halted = true;
            },
            Op::Nop => {},
            Op::Call => {
                self.push_word(r.word());
                self.pc = ins.arg0 as usize;
            },
            Op::Ret => {
                self.pop_word();
                self.pc = r.index();
            },
        }
    }

    /// Takes one step with the host's reply to [`Vm::request`] (see [`step_state`]).
    pub fn step(&mut self, reply: Reply)
        requires
            can_step(old(self)@),
        ensures
            final(self)@ == step_state(old(self)@, reply),
            well_formed(final(self)@),
    {
        if self.is_stopped() {
            return;
        }
        match self.phase {
            Phase::Pushing { .. } => {
                self.push_word(reply.word());
                self.phase = Phase::Ready;
            },
            Phase::Packing { bit, packed } => {
                self.pop_word();
                let p = if reply.flag() {
                    packed | (1u8 << bit)
                } else {
                    packed
                };
                self.phase = if bit >= 7 {
                    Phase::Pushing { packed: p }
                } else {
                    Phase::Packing { bit: bit + 1, packed: p }
                };
            },
            Phase::Ready => {
                let len = self.code.len();
                assert(self.pc < len);
                let ins = self.code[self.pc];
                self.pc = self.pc + 1;
                self.budget = self.budget - 1;
                self.execute_instr(ins, reply);
            },
        }
    }
}

/// The steps left until the machine stops at the latest: ten per instruction that may
/// still start, plus those left of the instruction under way.
pub open spec fn work_left(s: VmState) -> int {
    10 * s.budget + match s.phase {
        Phase::Ready => 0int,
        Phase::Packing { bit, .. } => 9 - bit,
        Phase::Pushing { .. } => 1int,
    }
}

/// A stopped machine stays as it is, whatever the reply.
pub proof fn lemma_stopped_is_fixed(s: VmState, r: Reply)
    requires
        stopped(s),
    ensures
        step_state(s, r) == s,
        request_of(s) == Request::Nothing,
{
}

/// Every step of a running machine brings it closer to stopping, so a host
/// that keeps answering always reaches a stop: a run starts at most its
/// budget of instructions.
pub proof fn lemma_step_progress(s: VmState, r: Reply)
    requires
        well_formed(s),
        !stopped(s),
    ensures
        0 <= work_left(step_state(s, r)) < work_left(s),
        well_formed(step_state(s, r)),
{
}

/// Each step counts at most one check and at most one violation, a
/// violation only together with its check, and never lowers either count;
/// so the violations never outnumber the checks.
pub proof fn lemma_step_counts(s: VmState, r: Reply)
    requires
        can_step(s),
    ensures
        step_state(s, r).checks == s.checks || step_state(s, r).checks == s.checks + 1,
        step_state(s, r).violations == s.violations || step_state(s, r).violations
            == s.violations + 1,
        step_state(s, r).violations == s.violations + 1 ==> step_state(s, r).checks == s.checks
            + 1,
        s.violations <= s.checks ==> step_state(s, r).violations <= step_state(s, r).checks,
{
}

/// Once halted, a machine stays halted.
pub proof fn lemma_halt_is_sticky(s: VmState, r: Reply)
    requires
        s.halted,
    ensures
        step_state(s, r).halted,
{
}

/// An `Assert` of a value the host reports as zero counts a check and a
/// violation and halts the machine; of any other value it only counts the check.
pub proof fn lemma_assert_outcome(s: VmState, r: Reply)
    requires
        can_step(s),
        at_instruction(s),
        s.code[s.pc as int].op == Op::Assert,
    ensures
        request_of(s) == Request::Truth(top(s.stack)),
        step_state(s, r).checks == s.checks + 1,
        !r.flag_of() ==> step_state(s, r).violations == s.violations + 1 && step_state(
            s,
            r,
        ).halted && stopped(step_state(s, r)),
        r.flag_of() ==> step_state(s, r).violations == s.violations && step_state(s, r).halted
            == s.halted,
{
}

/// The state a host that answers each request by `host` drives `s` to in at most `fuel` steps.
pub open spec fn drive(s: VmState, host: spec_fn(Request) -> Reply, fuel: nat) -> VmState
    decreases fuel,
{
    if fuel == 0 || stopped(s) {
        s
    } else {
        drive(step_state(s, host(request_of(s))), host, (fuel - 1) as nat)
    }
}

/// Every step a host that answers by `host` takes from `s` within `fuel` steps is one the machine can take.
pub open spec fn drive_safe(s: VmState, host: spec_fn(Request) -> Reply, fuel: nat) -> bool
    decreases fuel,
{
    if fuel == 0 || stopped(s) {
        true
    } else {
        can_step(s) && drive_safe(step_state(s, host(request_of(s))), host, (fuel - 1) as nat)
    }
}

/// Where a host that answers by `host` drives `s`: the machine's state once it stops.
pub open spec fn run_out(s: VmState, host: spec_fn(Request) -> Reply) -> VmState {
    drive(s, host, work_left(s) as nat)
}

/// `s` with `budget` instructions that may still start.
pub open spec fn with_budget(s: VmState, budget: usize) -> VmState {
    VmState { budget, ..s }
}

proof fn lemma_work_left_nonneg(s: VmState)
    requires
        well_formed(s),
    ensures
        work_left(s) >= 0,
{
}

/// Driving with enough fuel stops the machine, and more fuel changes nothing.
proof fn lemma_drive_stops(s: VmState, host: spec_fn(Request) -> Reply, fuel: nat, more: nat)
    requires
        well_formed(s),
        fuel >= work_left(s),
        more >= fuel,
    ensures
        stopped(drive(s, host, fuel)),
        well_formed(drive(s, host, fuel)),
        drive(s, host, more) == drive(s, host, fuel),
    decreases fuel,
{
    if !stopped(s) {
        let r = host(request_of(s));
        lemma_step_progress(s, r);
        lemma_drive_stops(step_state(s, r), host, (fuel - 1) as nat, (more - 1) as nat);
    }
}

/// A run out of a running machine is the run out of its next state.
proof fn lemma_run_out_unfold(s: VmState, host: spec_fn(Request) -> Reply)
    requires
        well_formed(s),
        !stopped(s),
    ensures
        run_out(s, host) == run_out(step_state(s, host(request_of(s))), host),
{
    let t = step_state(s, host(request_of(s)));
    lemma_step_progress(s, host(request_of(s)));
    lemma_work_left_nonneg(t);
    lemma_drive_stops(t, host, work_left(t) as nat, (work_left(s) - 1) as nat);
}

/// What a run keeps between its start `s0` and its state `s`.
pub open spec fn run_bounds(s0: VmState, s: VmState) -> bool {
    &&& well_formed(s)
    &&& s.code == s0.code
    &&& s0.checks <= s.checks
    &&& s0.violations <= s.violations
    &&& s.checks + s.budget <= s0.checks + s0.budget
    &&& s.violations - s0.violations <= s.checks - s0.checks
    &&& s0.halted ==> s.halted
}

proof fn lemma_step_bounds(s0: VmState, s: VmState, r: Reply)
    requires
        run_bounds(s0, s),
        !stopped(s),
        s0.checks + s0.budget <= u64::MAX,
        s0.violations + s0.budget <= u64::MAX,
    ensures
        can_step(s),
        run_bounds(s0, step_state(s, r)),
{
    lemma_step_progress(s, r);
}

proof fn lemma_drive_bounds(
    s0: VmState,
    s: VmState,
    host: spec_fn(Request) -> Reply,
    fuel: nat,
)
    requires
        run_bounds(s0, s),
        s0.checks + s0.budget <= u64::MAX,
        s0.violations + s0.budget <= u64::MAX,
    ensures
        run_bounds(s0, drive(s, host, fuel)),
        drive_safe(s, host, fuel),
    decreases fuel,
{
    if fuel > 0 && !stopped(s) {
        let r = host(request_of(s));
        lemma_step_bounds(s0, s, r);
        lemma_drive_bounds(s0, step_state(s, r), host, (fuel - 1) as nat);
    }
}

/// Driving a machine with budget `b` until it stops, whatever the host
/// answers: every step taken is one it can take (no counter overflows), it
/// stops, its code is unchanged, neither count falls, it counts at most `b`
/// checks and no more violations than checks, and a halted machine stays halted.
pub proof fn lemma_run_counts(s: VmState, host: spec_fn(Request) -> Reply)
    requires
        well_formed(s),
        s.checks + s.budget <= u64::MAX,
        s.violations + s.budget <= u64::MAX,
    ensures
        drive_safe(s, host, work_left(s) as nat),
        stopped(run_out(s, host)),
        run_out(s, host).code == s.code,
        s.checks <= run_out(s, host).checks <= s.checks + s.budget,
        s.violations <= run_out(s, host).violations,
        run_out(s, host).violations - s.violations <= run_out(s, host).checks - s.checks,
        s.halted ==> run_out(s, host).halted,
{
    lemma_work_left_nonneg(s);
    lemma_drive_stops(s, host, work_left(s) as nat, work_left(s) as nat);
    lemma_drive_bounds(s, s, host, work_left(s) as nat);
}

/// A whole run: it stops after counting at most [`RUN_CYCLES`] checks, with
/// no more violations than checks, its code unchanged, and no step of it
/// overflowing a counter.
pub proof fn lemma_full_run(code: Seq<Instr>, inputs: Seq<u64>, host: spec_fn(Request) -> Reply)
    ensures
        drive_safe(run_start(code, inputs), host, work_left(run_start(code, inputs)) as nat),
        stopped(run_out(run_start(code, inputs), host)),
        run_out(run_start(code, inputs), host).code == code,
        run_out(run_start(code, inputs), host).violations <= run_out(
            run_start(code, inputs),
            host,
        ).checks <= RUN_CYCLES,
{
    lemma_run_counts(run_start(code, inputs), host);
}

/// What a run ends in depends only on the code and the inputs: whatever two
/// machines held before, starting a run on the same code and inputs ends alike.
pub proof fn lemma_run_depends_on_code_and_inputs(
    s1: VmState,
    s2: VmState,
    inputs: Seq<u64>,
    host: spec_fn(Request) -> Reply,
)
    requires
        s1.code == s2.code,
    ensures
        run_out(run_start(s1.code, inputs), host) == run_out(run_start(s2.code, inputs), host),
{
}

/// Raising the budget of a running machine commutes with its step.
proof fn lemma_step_with_more_budget(x: VmState, k: usize, r: Reply)
    requires
        !stopped(x),
        x.budget + k <= usize::MAX,
    ensures
        !stopped(with_budget(x, (x.budget + k) as usize)),
        request_of(with_budget(x, (x.budget + k) as usize)) == request_of(x),
        step_state(with_budget(x, (x.budget + k) as usize), r) == with_budget(
            step_state(x, r),
            (step_state(x, r).budget + k) as usize,
        ),
{
}

proof fn lemma_run_with_more_budget(x: VmState, k: usize, host: spec_fn(Request) -> Reply)
    requires
        well_formed(x),
        x.budget + k <= usize::MAX,
    ensures
        run_out(x, host).budget <= x.budget,
        run_out(with_budget(x, (x.budget + k) as usize), host) == run_out(
            with_budget(run_out(x, host), (run_out(x, host).budget + k) as usize),
            host,
        ),
    decreases work_left(x),
{
    if stopped(x) {
        lemma_work_left_nonneg(x);
        assert(run_out(x, host) == x);
    } else {
        let r = host(request_of(x));
        let y = step_state(x, r);
        let xk = with_budget(x, (x.budget + k) as usize);
        lemma_step_progress(x, r);
        lemma_step_with_more_budget(x, k, r);
        lemma_run_out_unfold(x, host);
        lemma_run_out_unfold(xk, host);
        lemma_run_with_more_budget(y, k, host);
    }
}

/// Driving a machine with budget `a` until it stops and then with budget
/// `b` until it stops again ends where driving it with budget `a + b` ends,
/// but for the budget left over.
pub proof fn lemma_budget_splits(s: VmState, a: usize, b: usize, host: spec_fn(Request) -> Reply)
    requires
        well_formed(s),
        a + b <= usize::MAX,
    ensures
        with_budget(run_out(with_budget(run_out(with_budget(s, a), host), b), host), 0)
            == with_budget(run_out(with_budget(s, (a + b) as usize), host), 0),
{
    let x = with_budget(s, a);
    lemma_run_with_more_budget(x, b, host);
    assert(with_budget(x, (a + b) as usize) == with_budget(s, (a + b) as usize));
    let t = run_out(x, host);
    lemma_work_left_nonneg(x);
    lemma_drive_stops(x, host, work_left(x) as nat, work_left(x) as nat);
    if t.budget == 0 {
        assert(with_budget(t, (t.budget + b) as usize) == with_budget(t, b));
    } else {
        let u1 = with_budget(t, b);
        let u2 = with_budget(t, (t.budget + b) as usize);
        assert(stopped(u1) && stopped(u2));
        assert(run_out(u1, host) == u1);
        assert(run_out(u2, host) == u2);
        assert(with_budget(u1, 0) == with_budget(u2, 0));
    }
}

/// The instruction the next step starts.
pub open spec fn op_at(s: VmState) -> Op {
    s.code[s.pc as int].op
}

/// The left-hand operand of a binary instruction: the word under the top of the stack.
pub open spec fn left_operand(stack: Seq<u64>) -> u64 {
    stack[stack.len() - 2]
}

/// The right-hand operand of a binary instruction: the word on top of the stack.
pub open spec fn right_operand(stack: Seq<u64>) -> u64 {
    stack[stack.len() - 1]
}

/// The stack below the two operands of a binary instruction.
pub open spec fn below_operands(stack: Seq<u64>) -> Seq<u64> {
    stack.subrange(0, stack.len() - 2)
}

/// Arithmetic and comparisons read their operands in program order: the
/// word pushed first (under the top) is the left-hand side, the word on top
/// the right-hand side, so `Const a; Const b; Sub` asks for `a - b` and
/// `Const a; Const b; Gt` asks whether `a > b`.  Both operands leave the
/// stack; the host's word, or one for a comparison that holds and zero for
/// one that fails, takes their place; and execution continues at the next
/// instruction.
pub proof fn lemma_binary_operand_order(s: VmState, r: Reply)
    requires
        at_instruction(s),
        s.stack.len() >= 2,
        s.code.len() <= usize::MAX,
    ensures
        op_at(s) == Op::Add ==> request_of(s) == Request::Arith(ArithOp::Add, left_operand(s.stack), right_operand(s.stack))
            && step_state(s, r).stack == below_operands(s.stack).push(r.word_of()),
        op_at(s) == Op::Sub ==> request_of(s) == Request::Arith(ArithOp::Sub, left_operand(s.stack), right_operand(s.stack))
            && step_state(s, r).stack == below_operands(s.stack).push(r.word_of()),
        op_at(s) == Op::Mul ==> request_of(s) == Request::Arith(ArithOp::Mul, left_operand(s.stack), right_operand(s.stack))
            && step_state(s, r).stack == below_operands(s.stack).push(r.word_of()),
        op_at(s) == Op::Div ==> request_of(s) == Request::Arith(ArithOp::Div, left_operand(s.stack), right_operand(s.stack))
            && step_state(s, r).stack == below_operands(s.stack).push(r.word_of()),
        op_at(s) == Op::Lt ==> request_of(s) == Request::Compare(CompareOp::Lt, left_operand(s.stack), right_operand(s.stack))
            && step_state(s, r).stack == below_operands(s.stack).push(if r.flag_of() { ONE_WORD } else { ZERO_WORD }),
        op_at(s) == Op::Gt ==> request_of(s) == Request::Compare(CompareOp::Gt, left_operand(s.stack), right_operand(s.stack))
            && step_state(s, r).stack == below_operands(s.stack).push(if r.flag_of() { ONE_WORD } else { ZERO_WORD }),
        op_at(s) == Op::Eq ==> request_of(s) == Request::Compare(CompareOp::Eq, left_operand(s.stack), right_operand(s.stack))
            && step_state(s, r).stack == below_operands(s.stack).push(if r.flag_of() { ONE_WORD } else { ZERO_WORD }),
        op_at(s) == Op::Le ==> request_of(s) == Request::Compare(CompareOp::Le, left_operand(s.stack), right_operand(s.stack))
            && step_state(s, r).stack == below_operands(s.stack).push(if r.flag_of() { ONE_WORD } else { ZERO_WORD }),
        op_at(s) == Op::Ge ==> request_of(s) == Request::Compare(CompareOp::Ge, left_operand(s.stack), right_operand(s.stack))
            && step_state(s, r).stack == below_operands(s.stack).push(if r.flag_of() { ONE_WORD } else { ZERO_WORD }),
        op_at(s) == Op::Ne ==> request_of(s) == Request::Compare(CompareOp::Ne, left_operand(s.stack), right_operand(s.stack))
            && step_state(s, r).stack == below_operands(s.stack).push(if r.flag_of() { ONE_WORD } else { ZERO_WORD }),
        arith_op(op_at(s)) is Some || compare_op(op_at(s)) is Some ==> step_state(s, r).pc == s.pc + 1
            && step_state(s, r).locals == s.locals && step_state(s, r).checks == s.checks
            && step_state(s, r).violations == s.violations && !step_state(s, r).halted,
{
}

/// Where branches go.  `Jz` pops its operand and, if the host reports it
/// zero, continues after instruction `arg0`; if nonzero, at the next
/// instruction.  `Jnz` pops its operand and continues at instruction `arg0`
/// if the host reports it nonzero, at the next instruction if zero.  `Jmp`
/// continues at instruction `arg0` and leaves the stack alone.
pub proof fn lemma_branch_targets(s: VmState, r: Reply)
    requires
        at_instruction(s),
        s.code.len() <= usize::MAX,
    ensures
        op_at(s) == Op::Jz && s.stack.len() >= 1 ==> request_of(s) == Request::Truth(right_operand(s.stack))
            && step_state(s, r).stack == s.stack.drop_last()
            && step_state(s, r).pc == if r.flag_of() { s.pc + 1 } else { s.code[s.pc as int].arg0 + 1 },
        op_at(s) == Op::Jnz && s.stack.len() >= 1 ==> request_of(s) == Request::Truth(right_operand(s.stack))
            && step_state(s, r).stack == s.stack.drop_last()
            && step_state(s, r).pc == if r.flag_of() { s.code[s.pc as int].arg0 as int } else { s.pc + 1 },
        op_at(s) == Op::Jmp ==> step_state(s, r).stack == s.stack
            && step_state(s, r).pc == s.code[s.pc as int].arg0,
        op_at(s) == Op::Jz || op_at(s) == Op::Jnz || op_at(s) == Op::Jmp ==> step_state(s, r).checks == s.checks
            && step_state(s, r).violations == s.violations && !step_state(s, r).halted
            && step_state(s, r).locals == s.locals,
{
}

/// One for a set bit `n` of `b`, zero for a clear one, by arithmetic: bit
/// `n` is set when `b` divided by two to the `n` (rounding down) is odd.
pub open spec fn bit_word(b: u8, n: int) -> u64 {
    let p: int = if n == 0 { 1 } else if n == 1 { 2 } else if n == 2 { 4 } else if n == 3 {
        8
    } else if n == 4 { 16 } else if n == 5 { 32 } else if n == 6 { 64 } else { 128 };
    if (b as int / p) % 2 == 1 { ONE_WORD } else { ZERO_WORD }
}

proof fn lemma_unpack_words_by_arithmetic(b: u8)
    ensures
        forall|n: int| 0 <= n < 8 ==> #[trigger] unpack_words(b)[n] == bit_word(b, n),
{
    assert((b >> 0u8) & 1u8 == 1u8 <==> (b / 1u8) % 2u8 == 1u8) by (bit_vector);
    assert((b >> 1u8) & 1u8 == 1u8 <==> (b / 2u8) % 2u8 == 1u8) by (bit_vector);
    assert((b >> 2u8) & 1u8 == 1u8 <==> (b / 4u8) % 2u8 == 1u8) by (bit_vector);
    assert((b >> 3u8) & 1u8 == 1u8 <==> (b / 8u8) % 2u8 == 1u8) by (bit_vector);
    assert((b >> 4u8) & 1u8 == 1u8 <==> (b / 16u8) % 2u8 == 1u8) by (bit_vector);
    assert((b >> 5u8) & 1u8 == 1u8 <==> (b / 32u8) % 2u8 == 1u8) by (bit_vector);
    assert((b >> 6u8) & 1u8 == 1u8 <==> (b / 64u8) % 2u8 == 1u8) by (bit_vector);
    assert((b >> 7u8) & 1u8 == 1u8 <==> (b / 128u8) % 2u8 == 1u8) by (bit_vector);
}

/// What the single-operand and stack instructions do.  `Const` pushes its
/// immediate, `Load` pushes local `arg0` (zero past the locals), `Store`
/// pops into local `arg0` (growing the locals with zeros to reach it), `Not`
/// pushes one for an operand the host reports zero and zero otherwise, `And`
/// replaces both operands by one exactly when the host reports both nonzero,
/// `Or` replaces only the top by one exactly when the host reports either
/// nonzero, `Check` pops and counts one check and, for a zero operand, one
/// violation without halting, `Halt` halts, `Nop` does nothing; each then
/// continues at the next instruction.  `Call` pushes the host's word for the
/// index of the next instruction and continues at `arg0`; `Ret` pops and
/// continues at the index the host reads from it.  `Unpack` keeps its operand
/// and pushes one word per bit of the host's byte, bit 0 first.
pub proof fn lemma_instruction_effects(s: VmState, r: Reply)
    requires
        at_instruction(s),
        s.code.len() <= usize::MAX,
    ensures
        op_at(s) == Op::Const ==> step_state(s, r).stack == s.stack.push(s.code[s.pc as int].imm)
            && step_state(s, r).pc == s.pc + 1,
        op_at(s) == Op::Load ==> step_state(s, r).stack == s.stack.push(
            if (s.code[s.pc as int].arg0 as int) < s.locals.len() {
                s.locals[s.code[s.pc as int].arg0 as int]
            } else {
                ZERO_WORD
            },
        ) && step_state(s, r).locals == s.locals && step_state(s, r).pc == s.pc + 1,
        op_at(s) == Op::Store && s.stack.len() >= 1 ==> step_state(s, r).stack
            == s.stack.drop_last() && step_state(s, r).pc == s.pc + 1
            && step_state(s, r).locals[s.code[s.pc as int].arg0 as int] == s.stack.last()
            && step_state(s, r).locals.len() == if (s.code[s.pc as int].arg0 as int)
            < s.locals.len() {
            s.locals.len() as int
        } else {
            s.code[s.pc as int].arg0 + 1
        } && (forall|i: int|
            0 <= i < step_state(s, r).locals.len() && i != s.code[s.pc as int].arg0 ==> #[trigger] step_state(
                s,
                r,
            ).locals[i] == if i < s.locals.len() {
                s.locals[i]
            } else {
                ZERO_WORD
            }),
        op_at(s) == Op::Not && s.stack.len() >= 1 ==> request_of(s) == Request::Truth(
            right_operand(s.stack),
        ) && step_state(s, r).stack == s.stack.drop_last().push(
            if r.flag_of() { ZERO_WORD } else { ONE_WORD },
        ) && step_state(s, r).pc == s.pc + 1,
        op_at(s) == Op::And && s.stack.len() >= 2 ==> request_of(s) == Request::Truths(
            left_operand(s.stack),
            right_operand(s.stack),
        ) && step_state(s, r).stack == below_operands(s.stack).push(
            if r.flags_of().0 && r.flags_of().1 { ONE_WORD } else { ZERO_WORD },
        ),
        op_at(s) == Op::Or && s.stack.len() >= 2 ==> request_of(s) == Request::Truths(
            left_operand(s.stack),
            right_operand(s.stack),
        ) && step_state(s, r).stack == s.stack.drop_last().push(
            if r.flags_of().0 || r.flags_of().1 { ONE_WORD } else { ZERO_WORD },
        ),
        op_at(s) == Op::Check && s.stack.len() >= 1 && can_step(s) ==> request_of(s) == Request::Truth(
            right_operand(s.stack),
        ) && step_state(s, r).stack == s.stack.drop_last() && step_state(s, r).checks == s.checks
            + 1 && step_state(s, r).violations == (if r.flag_of() {
            s.violations as int
        } else {
            s.violations + 1
        }) && !step_state(s, r).halted && step_state(s, r).pc == s.pc + 1,
        op_at(s) == Op::Halt ==> step_state(s, r).halted && step_state(s, r).stack == s.stack
            && step_state(s, r).checks == s.checks,
        op_at(s) == Op::Nop ==> step_state(s, r) == (VmState {
            pc: (s.pc + 1) as usize,
            budget: (s.budget - 1) as usize,
            ..s
        }),
        op_at(s) == Op::Call ==> request_of(s) == Request::IndexToWord((s.pc + 1) as usize)
            && step_state(s, r).stack == s.stack.push(r.word_of()) && step_state(s, r).pc
            == s.code[s.pc as int].arg0,
        op_at(s) == Op::Ret && s.stack.len() >= 1 ==> request_of(s) == Request::WordToIndex(
            right_operand(s.stack),
        ) && step_state(s, r).stack == s.stack.drop_last() && step_state(s, r).pc
            == r.index_of(),
        op_at(s) == Op::Unpack && s.stack.len() >= 1 ==> request_of(s) == Request::WordToByte(
            right_operand(s.stack),
        ) && step_state(s, r).stack.len() == s.stack.len() + 8 && step_state(s, r).stack.subrange(
            0,
            s.stack.len() as int,
        ) == s.stack && (forall|n: int|
            0 <= n < 8 ==> #[trigger] step_state(s, r).stack[s.stack.len() + n] == bit_word(
                r.byte_of(),
                n,
            )) && step_state(s, r).pc == s.pc + 1,
{
    if op_at(s) == Op::Unpack {
        lemma_unpack_words_by_arithmetic(r.byte_of());
        let t = step_state(s, r);
        assert(t.stack.subrange(0, s.stack.len() as int) =~= s.stack);
        assert forall|n: int| 0 <= n < 8 implies #[trigger] t.stack[s.stack.len() + n] == bit_word(
            r.byte_of(),
            n,
        ) by {
            assert(t.stack[s.stack.len() + n] == unpack_words(r.byte_of())[n]);
        }
    }
    if op_at(s) == Op::Store && s.stack.len() >= 1 {
        let t = step_state(s, r);
        let i = s.code[s.pc as int].arg0 as int;
        assert forall|j: int| 0 <= j < t.locals.len() && j != i implies #[trigger] t.locals[j]
            == if j < s.locals.len() {
            s.locals[j]
        } else {
            ZERO_WORD
        } by {}
    }
}

/// `Pack8` starts by testing nothing; each of its next eight steps pops one
/// word and, when the host reports it nonzero, adds two to the power of its
/// position (the first popped, the top, is bit 0) to the packed byte; its
/// last step pushes the host's word for the packed byte.  The machine moves
/// on from `Pack8` at once, and no counter or flag changes meanwhile.
pub proof fn lemma_pack8_effects(s: VmState, r: Reply, bit: u8, packed: u8)
    requires
        !stopped(s),
        s.code.len() <= usize::MAX,
    ensures
        s.phase == Phase::Ready && op_at(s) == Op::Pack8 ==> step_state(s, r) == pack8_opened(s),
        packing_at(s, bit, packed) && bit < 8 && (packed as int) < pow2_u8(bit) ==> request_of(s)
            == Request::Truth(top_or_zero(s.stack)) && step_state(s, r).stack == stack_after_pop(
            s.stack,
        ) && step_state(s, r).pc == s.pc && step_state(s, r).checks == s.checks && step_state(
            s,
            r,
        ).violations == s.violations && step_state(s, r).phase == phase_after_bit(
            bit,
            packed,
            r.flag_of(),
        ),
        pushing_at(s, packed) ==> request_of(s) == Request::IndexToWord(packed as usize)
            && step_state(s, r).stack == s.stack.push(r.word_of()) && step_state(s, r).phase
            == Phase::Ready && step_state(s, r).pc == s.pc,
{
    if packing_at(s, bit, packed) && bit < 8 && (packed as int) < pow2_u8(bit) {
        lemma_or_adds_fresh_bit(packed, bit);
    }
}

/// The machine is packing with `bit` bits tested into `packed`.
pub open spec fn packing_at(s: VmState, bit: u8, packed: u8) -> bool {
    s.phase == (Phase::Packing { bit, packed })
}

/// The machine is about to push the word of `packed`.
pub open spec fn pushing_at(s: VmState, packed: u8) -> bool {
    s.phase == (Phase::Pushing { packed })
}

/// The machine just past a `Pack8`: one instruction spent, no bit tested yet.
pub open spec fn pack8_opened(s: VmState) -> VmState {
    VmState {
        pc: (s.pc + 1) as usize,
        budget: (s.budget - 1) as usize,
        phase: Phase::Packing { bit: 0, packed: 0 },
        ..s
    }
}

/// The top of a stack, or zero for an empty one.
pub open spec fn top_or_zero(stack: Seq<u64>) -> u64 {
    if stack.len() > 0 { stack.last() } else { ZERO_WORD }
}

/// A stack after a pop; an empty one stays empty.
pub open spec fn stack_after_pop(stack: Seq<u64>) -> Seq<u64> {
    if stack.len() > 0 { stack.drop_last() } else { stack }
}

/// Where packing goes once bit `bit` is tested: two to the power `bit` is
/// added for a nonzero word, and after bit 7 the byte is pushed next.
pub open spec fn phase_after_bit(bit: u8, packed: u8, nonzero: bool) -> Phase {
    let p = (packed + if nonzero { pow2_u8(bit) } else { 0 }) as u8;
    if bit == 7 {
        Phase::Pushing { packed: p }
    } else {
        Phase::Packing { bit: (bit + 1) as u8, packed: p }
    }
}

/// Two to the power `bit`, for a bit of a byte.
pub open spec fn pow2_u8(bit: u8) -> int {
    if bit == 0 { 1 } else if bit == 1 { 2 } else if bit == 2 { 4 } else if bit == 3 {
        8
    } else if bit == 4 { 16 } else if bit == 5 { 32 } else if bit == 6 { 64 } else { 128 }
}

proof fn lemma_or_adds_fresh_bit(packed: u8, bit: u8)
    requires
        bit < 8,
        (packed as int) < pow2_u8(bit),
    ensures
        (packed | (1u8 << bit)) as int == packed + pow2_u8(bit),
        (1u8 << bit) as int == pow2_u8(bit),
{
    let p = pow2_u8(bit) as u8;
    assert(p as int == pow2_u8(bit));
    assert((1u8 << bit) == p && (packed | (1u8 << bit)) == packed + p) by (bit_vector)
        requires
            bit < 8,
            packed < p,
            bit == 0 ==> p == 1u8,
            bit == 1 ==> p == 2u8,
            bit == 2 ==> p == 4u8,
            bit == 3 ==> p == 8u8,
            bit == 4 ==> p == 16u8,
            bit == 5 ==> p == 32u8,
            bit == 6 ==> p == 64u8,
            bit == 7 ==> p == 128u8,
    ;
}

} // verus!
