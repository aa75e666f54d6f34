//! The compact FLUX-C interpreter of the verification service, which decodes
//! its byte stream as it runs.
//!
//! Layout: one opcode byte, then for `0x03` (constant) fifteen operand
//! bytes, whose last four give the constant's binary64 word its upper 32
//! bits, most significant byte first (its lower 32 bits are zero), and for
//! `0x01` (load) and `0x02` (store) one local index byte.  Opcodes
//! `0x04`..`0x07` are the four arithmetic operations, `0x08` and `0x09`
//! logical and/or, `0x0A` not, `0x0B`..`0x10` the comparisons `<`, `>`, `==`,
//! `<=`, `>=`, `!=`, `0x16` check, `0x17` assert, `0x18` end; every other
//! byte does nothing.  A constant whose operand does not fit before the end
//! pushes nothing, and the bytes after its opcode are then read as opcodes.
//! `0x18` ends the run by moving past the code; the halt flag of a run
//! reports a failed assert, which also ends it.
//!
//! As with [`crate::wasm_vm::Vm`], a host answers the numeric requests.

use vstd::prelude::*;
use crate::word::{ArithOp, CompareOp, Request, Reply, truth_word, bool_word, ZERO_WORD, ONE_WORD};
use crate::stack::{
    pop, top, second, pop2, local_or_zero, store_local, pop_word, peek_top, peek_second, load_local,
    store_word,
};

verus! {

/// The interpreter.
pub struct BytecodeVm {
    code: Vec<u8>,
    pub stack: Vec<u64>,
    locals: Vec<u64>,
    pc: usize,
    checks: u64,
    violations: u64,
    halted: bool,
}

/// The interpreter's state as mathematical values.
#[verifier::ext_equal]
pub struct ServiceState {
    pub code: Seq<u8>,
    pub stack: Seq<u64>,
    pub locals: Seq<u64>,
    pub pc: usize,
    pub checks: u64,
    pub violations: u64,
    pub halted: bool,
}

impl View for BytecodeVm {
    type V = ServiceState;

    closed spec fn view(&self) -> ServiceState {
        ServiceState {
            code: self.code@,
            stack: self.stack@,
            locals: self.locals@,
            pc: self.pc,
            checks: self.checks,
            violations: self.violations,
            halted: self.halted,
        }
    }
}

/// The interpreter's invariant: the code fits in memory, `pc` stays at most one
/// past it, and there are no more violations than checks, nor more checks than
/// bytes run through.
pub open spec fn service_wf(s: ServiceState) -> bool {
    &&& s.code.len() <= isize::MAX
    &&& s.pc <= isize::MAX + 1
    &&& s.violations <= s.checks <= s.pc
}

/// The run is over: an assert failed, or `pc` is past the code.
pub open spec fn finished(s: ServiceState) -> bool {
    s.halted || s.pc >= s.code.len()
}

pub open spec fn service_arith(op: u8) -> Option<ArithOp> {
    if op == 0x04 {
        Some(ArithOp::Add)
    } else if op == 0x05 {
        Some(ArithOp::Sub)
    } else if op == 0x06 {
        Some(ArithOp::Mul)
    } else if op == 0x07 {
        Some(ArithOp::Div)
    } else {
        None
    }
}

pub open spec fn service_compare(op: u8) -> Option<CompareOp> {
    if op == 0x0B {
        Some(CompareOp::Lt)
    } else if op == 0x0C {
        Some(CompareOp::Gt)
    } else if op == 0x0D {
        Some(CompareOp::Eq)
    } else if op == 0x0E {
        Some(CompareOp::Le)
    } else if op == 0x0F {
        Some(CompareOp::Ge)
    } else if op == 0x10 {
        Some(CompareOp::Ne)
    } else {
        None
    }
}

/// The word of the constant whose fifteen operand bytes start at `code[i]`:
/// operand bytes 11 to 14 are its upper 32 bits, most significant first.
pub open spec fn const_word(code: Seq<u8>, i: int) -> u64 {
    ((code[i + 11] as u64) << 56u64) | ((code[i + 12] as u64) << 48u64) | ((code[i + 13] as u64)
        << 40u64) | ((code[i + 14] as u64) << 32u64)
}

fn read_const_word(code: &Vec<u8>, i: usize) -> (w: u64)
    requires
        i + 15 <= code@.len(),
    ensures
        w == const_word(code@, i as int),
{
    let n = code.len();
    assert(i + 15 <= n);
    ((code[i + 11] as u64) << 56u64) | ((code[i + 12] as u64) << 48u64) | ((code[i + 13] as u64)
        << 40u64) | ((code[i + 14] as u64) << 32u64)
}

/// What the host must compute before the next step.
pub open spec fn service_request(s: ServiceState) -> Request {
    if finished(s) {
        Request::Nothing
    } else {
        let op = s.code[s.pc as int];
        if service_arith(op) is Some {
            Request::Arith(service_arith(op)->0, second(s.stack), top(s.stack))
        } else if service_compare(op) is Some {
            Request::Compare(service_compare(op)->0, second(s.stack), top(s.stack))
        } else if op == 0x08 || op == 0x09 {
            Request::Truths(second(s.stack), top(s.stack))
        } else if op == 0x0A || op == 0x16 || op == 0x17 {
            Request::Truth(top(s.stack))
        } else {
            Request::Nothing
        }
    }
}

/// The operand byte after the opcode at `pc`, or zero past the end.
pub open spec fn operand_at(code: Seq<u8>, i: int) -> u8 {
    if 0 <= i < code.len() {
        code[i]
    } else {
        0
    }
}

/// The state a run starts from: the code, the inputs as locals, and nothing
/// else carried over from before.
pub open spec fn service_start(code: Seq<u8>, inputs: Seq<u64>) -> ServiceState {
    ServiceState {
        code,
        stack: Seq::empty(),
        locals: inputs,
        pc: 0,
        checks: 0,
        violations: 0,
        halted: false,
    }
}

/// One step of the interpreter given the host's reply; a finished run stays as it is.
pub open spec fn service_step(s: ServiceState, r: Reply) -> ServiceState {
    if finished(s) {
        s
    } else {
        let op = s.code[s.pc as int];
        let pc = s.pc + 1;
        let (v, rest) = pop(s.stack);
        let flag = r.flag_of();
        if op == 0x03 {
            if pc + 14 < s.code.len() {
                ServiceState {
                    stack: s.stack.push(const_word(s.code, pc)),
                    pc: (pc + 15) as usize,
                    ..s
                }
            } else {
                ServiceState { pc: pc as usize, ..s }
            }
        } else if op == 0x01 {
            ServiceState {
                stack: s.stack.push(local_or_zero(s.locals, operand_at(s.code, pc) as int)),
                pc: (pc + 1) as usize,
                ..s
            }
        } else if op == 0x02 {
            ServiceState {
                stack: rest,
                locals: store_local(s.locals, operand_at(s.code, pc) as int, v),
                pc: (pc + 1) as usize,
                ..s
            }
        } else if service_arith(op) is Some {
            ServiceState { stack: pop2(s.stack).push(r.word_of()), pc: pc as usize, ..s }
        } else if op == 0x08 {
            ServiceState {
                stack: pop2(s.stack).push(truth_word(r.flags_of().0 && r.flags_of().1)),
                pc: pc as usize,
                ..s
            }
        } else if op == 0x09 {
            ServiceState {
                stack: pop2(s.stack).push(truth_word(r.flags_of().0 || r.flags_of().1)),
                pc: pc as usize,
                ..s
            }
        } else if op == 0x0A {
            ServiceState { stack: rest.push(truth_word(!flag)), pc: pc as usize, ..s }
        } else if service_compare(op) is Some {
            ServiceState { stack: pop2(s.stack).push(truth_word(flag)), pc: pc as usize, ..s }
        } else if op == 0x16 || op == 0x17 {
            ServiceState {
                stack: rest,
                checks: (s.checks + 1) as u64,
                violations: if !flag { (s.violations + 1) as u64 } else { s.violations },
                halted: op == 0x17 && !flag,
                pc: pc as usize,
                ..s
            }
        } else if op == 0x18 {
            ServiceState { pc: s.code.len() as usize, ..s }
        } else {
            ServiceState { pc: pc as usize, ..s }
        }
    }
}

impl BytecodeVm {
    /// An interpreter with no code, empty stack and locals, nothing counted.
    pub fn new() -> (vm: BytecodeVm)
        ensures
            vm@ == (ServiceState {
                code: Seq::empty(),
                stack: Seq::empty(),
                locals: Seq::empty(),
                pc: 0,
                checks: 0,
                violations: 0,
                halted: false,
            }),
            service_wf(vm@),
    {
        BytecodeVm {
            code: Vec::new(),
            stack: Vec::with_capacity(32),
            locals: Vec::with_capacity(16),
            pc: 0,
            checks: 0,
            violations: 0,
            halted: false,
        }
    }

    /// Replaces the code by a copy of `bytecode`; nothing else changes.
    pub fn load(&mut self, bytecode: &[u8])
        requires
            service_wf(old(self)@),
            bytecode@.len() <= isize::MAX,
        ensures
            final(self)@ == (ServiceState { code: bytecode@, ..old(self)@ }),
            service_wf(final(self)@),
    {
        self.code = vstd::slice::slice_to_vec(bytecode);
    }

    /// Starts a run: the inputs become the locals, the stack empties, and `pc`,
    /// the counters and the halt flag reset.
    pub fn start(&mut self, inputs: &[u64])
        requires
            service_wf(old(self)@),
        ensures
            final(self)@ == service_start(old(self)@.code, inputs@),
            service_wf(final(self)@),
    {
        self.locals = vstd::slice::slice_to_vec(inputs);
        self.stack.clear();
        self.pc = 0;
        self.checks = 0;
        self.violations = 0;
        self.halted = false;
    }

    /// Whether the run is over.
    pub fn is_finished(&self) -> (b: bool)
        ensures
            b == finished(self@),
    {
        self.halted || self.pc >= self.code.len()
    }

    /// The operand stack, bottom first.
    pub fn stack(&self) -> (r: &Vec<u64>)
        ensures
            r@ == self@.stack,
    {
        &self.stack
    }

    /// The checks counted, the violations among them, and whether an assert failed.
    pub fn outcome(&self) -> (r: (u64, u64, bool))
        ensures
            r == (self@.checks, self@.violations, self@.halted),
    {
        (self.checks, self.violations, self.halted)
    }

    /// What the host must compute before the next step.
    pub fn request(&self) -> (q: Request)
        ensures
            q == service_request(self@),
    {
        if self.is_finished() {
            return Request::Nothing;
        }
        let op = self.code[self.pc];
        let a = peek_second(&self.stack);
        let b = peek_top(&self.stack);
        if op == 0x04 {
            Request::Arith(ArithOp::Add, a, b)
        } else if op == 0x05 {
            Request::Arith(ArithOp::Sub, a, b)
        } else if op == 0x06 {
            Request::Arith(ArithOp::Mul, a, b)
        } else if op == 0x07 {
            Request::Arith(ArithOp::Div, a, b)
        } else if op == 0x0B {
            Request::Compare(CompareOp::Lt, a, b)
        } else if op == 0x0C {
            Request::Compare(CompareOp::Gt, a, b)
        } else if op == 0x0D {
            Request::Compare(CompareOp::Eq, a, b)
        } else if op == 0x0E {
            Request::Compare(CompareOp::Le, a, b)
        } else if op == 0x0F {
            Request::Compare(CompareOp::Ge, a, b)
        } else if op == 0x10 {
            Request::Compare(CompareOp::Ne, a, b)
        } else if op == 0x08 || op == 0x09 {
            Request::Truths(a, b)
        } else if op == 0x0A || op == 0x16 || op == 0x17 {
            Request::Truth(b)
        } else {
            Request::Nothing
        }
    }

    /// Takes one step with the host's reply to [`BytecodeVm::request`] (see [`service_step`]).
    pub fn step(&mut self, reply: Reply)
        requires
            service_wf(old(self)@),
        ensures
            final(self)@ == service_step(old(self)@, reply),
            service_wf(final(self)@),
    {
        if self.is_finished() {
            return;
        }
        let len = self.code.len();
        let op = self.code[self.pc];
        self.pc = self.pc + 1;
        if op == 0x03 {
            if self.pc + 14 < len {
                let v = read_const_word(&self.code, self.pc);
                self.stack.push(v);
                self.pc = self.pc + 15;
            }
        } else if op == 0x01 {
            let idx = if self.pc < len {
                self.code[self.pc]
            } else {
                0
            };
            self.pc = self.pc + 1;
            let v = load_local(&self.locals, idx as usize);
            self.stack.push(v);
        } else if op == 0x02 {
            let idx = if self.pc < len {
                self.code[self.pc]
            } else {
                0
            };
            self.pc = self.pc + 1;
            let v = pop_word(&mut self.stack);
            store_word(&mut self.locals, idx as usize, v);
        } else if 0x04 <= op && op <= 0x07 {
            pop_word(&mut self.stack);
            pop_word(&mut self.stack);
            self.stack.push(reply.word());
        } else if op == 0x08 {
            pop_word(&mut self.stack);
            pop_word(&mut self.stack);
            let (a, b) = reply.flags();
            self.stack.push(bool_word(a && b));
        } else if op == 0x09 {
            pop_word(&mut self.stack);
            pop_word(&mut self.stack);
            let (a, b) = reply.flags();
            self.stack.push(bool_word(a || b));
        } else if op == 0x0A {
            pop_word(&mut self.stack);
            self.stack.push(bool_word(!reply.flag()));
        } else if 0x0B <= op && op <= 0x10 {
            pop_word(&mut self.stack);
            pop_word(&mut self.stack);
            self.stack.push(bool_word(reply.flag()));
        } else if op == 0x16 || op == 0x17 {
            self.checks = self.checks + 1;
            pop_word(&mut self.stack);
            if !reply.flag() {
                self.violations = self.violations + 1;
                if op == 0x17 {
                    self.halted = true;
                }
            }
        } else if op == 0x18 {
            self.pc = len;
        }
    }
}

/// Every step of an unfinished run moves `pc` forward, so a host that keeps
/// answering always sees the run finish, after at most as many steps as the
/// code has bytes.
pub proof fn lemma_service_progress(s: ServiceState, r: Reply)
    requires
        service_wf(s),
        !finished(s),
    ensures
        service_step(s, r).pc > s.pc,
{
}

/// A finished run stays as it is, whatever the reply.
pub proof fn lemma_service_finished_is_fixed(s: ServiceState, r: Reply)
    requires
        finished(s),
    ensures
        service_step(s, r) == s,
        service_request(s) == Request::Nothing,
{
}

/// Each step counts at most one check and at most one violation, a violation
/// only with its check, and never lowers either count.
pub proof fn lemma_service_counts(s: ServiceState, r: Reply)
    requires
        service_wf(s),
    ensures
        service_step(s, r).checks == s.checks || service_step(s, r).checks == s.checks + 1,
        service_step(s, r).violations == s.violations || service_step(s, r).violations
            == s.violations + 1,
        service_step(s, r).violations == s.violations + 1 ==> service_step(s, r).checks
            == s.checks + 1,
        service_step(s, r).violations <= service_step(s, r).checks,
{
}

/// The state a host that answers each request by `host` drives `s` to in at most `fuel` steps.
pub open spec fn service_drive(s: ServiceState, host: spec_fn(Request) -> Reply, fuel: nat) -> ServiceState
    decreases fuel,
{
    if fuel == 0 || finished(s) {
        s
    } else {
        service_drive(service_step(s, host(service_request(s))), host, (fuel - 1) as nat)
    }
}

/// The bytes left before `pc` passes the end of the code.
pub open spec fn bytes_left(s: ServiceState) -> nat {
    if s.pc < s.code.len() {
        (s.code.len() - s.pc) as nat
    } else {
        0
    }
}

/// Where a host that answers by `host` drives `s`: the state once the run is over.
pub open spec fn service_run_out(s: ServiceState, host: spec_fn(Request) -> Reply) -> ServiceState {
    service_drive(s, host, bytes_left(s))
}

/// The bytes among the first `n` of `code` that are a check (`0x16`) or an assert (`0x17`).
pub open spec fn check_bytes(code: Seq<u8>, n: int) -> nat
    decreases n,
{
    if n <= 0 {
        0
    } else {
        check_bytes(code, n - 1) + if code[n - 1] == 0x16 || code[n - 1] == 0x17 {
            1nat
        } else {
            0nat
        }
    }
}

proof fn lemma_check_bytes_monotone(code: Seq<u8>, n: int, m: int)
    requires
        n <= m,
    ensures
        check_bytes(code, n) <= check_bytes(code, m),
    decreases m - n,
{
    if n < m {
        lemma_check_bytes_monotone(code, n, m - 1);
    }
}

pub open spec fn min(a: int, b: int) -> int {
    if a < b {
        a
    } else {
        b
    }
}

/// What a run keeps from its start on: no more checks than check and assert
/// bytes run through, no more violations than checks, a halt only after an
/// assert byte, and no more stack words than bytes run through.
pub open spec fn service_run_inv(s: ServiceState) -> bool {
    &&& service_wf(s)
    &&& s.checks <= check_bytes(s.code, min(s.pc as int, s.code.len() as int))
    &&& s.halted ==> exists|i: int|
        0 <= i < min(s.pc as int, s.code.len() as int) && s.code[i] == 0x17
    &&& s.stack.len() <= min(s.pc as int, s.code.len() as int)
}

proof fn lemma_service_step_inv(s: ServiceState, r: Reply)
    requires
        service_run_inv(s),
        !finished(s),
    ensures
        service_run_inv(service_step(s, r)),
        bytes_left(service_step(s, r)) < bytes_left(s),
{
    let t = service_step(s, r);
    lemma_service_counts(s, r);
    lemma_service_progress(s, r);
    let n = s.pc as int;
    let m = min(t.pc as int, t.code.len() as int);
    assert(m >= n + 1);
    lemma_check_bytes_monotone(s.code, n + 1, m);
    assert(check_bytes(s.code, n + 1) == check_bytes(s.code, n) + if s.code[n] == 0x16
        || s.code[n] == 0x17 {
        1nat
    } else {
        0nat
    });
    if t.halted {
        if !s.halted {
            assert(s.code[n] == 0x17);
        } else {
            let i = choose|i: int| 0 <= i < min(s.pc as int, s.code.len() as int) && s.code[i]
                == 0x17;
            assert(0 <= i < m);
        }
    }
}

proof fn lemma_service_drive(s: ServiceState, host: spec_fn(Request) -> Reply, fuel: nat)
    requires
        service_run_inv(s),
        fuel >= bytes_left(s),
    ensures
        service_run_inv(service_drive(s, host, fuel)),
        finished(service_drive(s, host, fuel)),
        service_drive(s, host, fuel).code == s.code,
        s.checks <= service_drive(s, host, fuel).checks,
    decreases fuel,
{
    if !finished(s) {
        let r = host(service_request(s));
        lemma_service_step_inv(s, r);
        lemma_service_counts(s, r);
        lemma_service_drive(service_step(s, r), host, (fuel - 1) as nat);
    }
}

/// A whole run of the interpreter ends, whatever the host answers: it
/// counts no more violations than checks and no more checks than the code
/// has check and assert bytes, it reports a halt only if the code holds an
/// assert byte, and it leaves no more stack words than the code has bytes.
pub proof fn lemma_service_full_run(code: Seq<u8>, inputs: Seq<u64>, host: spec_fn(Request) -> Reply)
    requires
        code.len() <= isize::MAX,
    ensures
        finished(service_run_out(service_start(code, inputs), host)),
        service_run_out(service_start(code, inputs), host).code == code,
        service_run_out(service_start(code, inputs), host).violations <= service_run_out(
            service_start(code, inputs),
            host,
        ).checks <= check_bytes(code, code.len() as int),
        service_run_out(service_start(code, inputs), host).halted ==> exists|i: int|
            0 <= i < code.len() && code[i] == 0x17,
        service_run_out(service_start(code, inputs), host).stack.len() <= code.len(),
{
    let s = service_start(code, inputs);
    lemma_service_drive(s, host, bytes_left(s));
    let t = service_run_out(s, host);
    lemma_check_bytes_monotone(code, min(t.pc as int, code.len() as int), code.len() as int);
    if t.halted {
        let i = choose|i: int| 0 <= i < min(t.pc as int, t.code.len() as int) && t.code[i] == 0x17;
        assert(0 <= i < code.len() && code[i] == 0x17);
    }
}

/// What a run ends in depends only on the code and the inputs: whatever two
/// interpreters held before, starting a run on the same code and inputs ends alike.
pub proof fn lemma_service_run_depends_on_code_and_inputs(
    s1: ServiceState,
    s2: ServiceState,
    inputs: Seq<u64>,
    host: spec_fn(Request) -> Reply,
)
    requires
        s1.code == s2.code,
    ensures
        service_run_out(service_start(s1.code, inputs), host) == service_run_out(
            service_start(s2.code, inputs),
            host,
        ),
{
}

/// The opcode byte the next step runs.
pub open spec fn byte_at(s: ServiceState) -> u8 {
    s.code[s.pc as int]
}

/// The left-hand operand of a binary opcode: the word under the top of the stack.
pub open spec fn lhs(stack: Seq<u64>) -> u64 {
    stack[stack.len() - 2]
}

/// The right-hand operand of a binary opcode: the word on top of the stack.
pub open spec fn rhs(stack: Seq<u64>) -> u64 {
    stack[stack.len() - 1]
}

/// The stack below the two operands of a binary opcode.
pub open spec fn under_operands(stack: Seq<u64>) -> Seq<u64> {
    stack.subrange(0, stack.len() - 2)
}

/// Arithmetic, comparisons and the two logical connectives read their
/// operands in program order: the word pushed first (under the top) is the
/// left-hand side and the word on top the right-hand side, so loading 9 and
/// then 3 and running `0x05` asks for `9 - 3`.  Both operands leave the
/// stack, the host's word (or one for a comparison that holds, zero for one
/// that fails; for `0x08` one when both operands are nonzero, for `0x09` one
/// when either is) takes their place, and the next byte runs next.
pub proof fn lemma_service_operand_order(s: ServiceState, r: Reply)
    requires
        service_wf(s),
        !finished(s),
        s.stack.len() >= 2,
    ensures
        byte_at(s) == 0x04 ==> service_request(s) == Request::Arith(ArithOp::Add, lhs(s.stack), rhs(s.stack))
            && service_step(s, r).stack == under_operands(s.stack).push(r.word_of()),
        byte_at(s) == 0x05 ==> service_request(s) == Request::Arith(ArithOp::Sub, lhs(s.stack), rhs(s.stack))
            && service_step(s, r).stack == under_operands(s.stack).push(r.word_of()),
        byte_at(s) == 0x06 ==> service_request(s) == Request::Arith(ArithOp::Mul, lhs(s.stack), rhs(s.stack))
            && service_step(s, r).stack == under_operands(s.stack).push(r.word_of()),
        byte_at(s) == 0x07 ==> service_request(s) == Request::Arith(ArithOp::Div, lhs(s.stack), rhs(s.stack))
            && service_step(s, r).stack == under_operands(s.stack).push(r.word_of()),
        byte_at(s) == 0x0B ==> service_request(s) == Request::Compare(CompareOp::Lt, lhs(s.stack), rhs(s.stack))
            && service_step(s, r).stack == under_operands(s.stack).push(if r.flag_of() { ONE_WORD } else { ZERO_WORD }),
        byte_at(s) == 0x0C ==> service_request(s) == Request::Compare(CompareOp::Gt, lhs(s.stack), rhs(s.stack))
            && service_step(s, r).stack == under_operands(s.stack).push(if r.flag_of() { ONE_WORD } else { ZERO_WORD }),
        byte_at(s) == 0x0D ==> service_request(s) == Request::Compare(CompareOp::Eq, lhs(s.stack), rhs(s.stack))
            && service_step(s, r).stack == under_operands(s.stack).push(if r.flag_of() { ONE_WORD } else { ZERO_WORD }),
        byte_at(s) == 0x0E ==> service_request(s) == Request::Compare(CompareOp::Le, lhs(s.stack), rhs(s.stack))
            && service_step(s, r).stack == under_operands(s.stack).push(if r.flag_of() { ONE_WORD } else { ZERO_WORD }),
        byte_at(s) == 0x0F ==> service_request(s) == Request::Compare(CompareOp::Ge, lhs(s.stack), rhs(s.stack))
            && service_step(s, r).stack == under_operands(s.stack).push(if r.flag_of() { ONE_WORD } else { ZERO_WORD }),
        byte_at(s) == 0x10 ==> service_request(s) == Request::Compare(CompareOp::Ne, lhs(s.stack), rhs(s.stack))
            && service_step(s, r).stack == under_operands(s.stack).push(if r.flag_of() { ONE_WORD } else { ZERO_WORD }),
        byte_at(s) == 0x08 ==> service_request(s) == Request::Truths(lhs(s.stack), rhs(s.stack))
            && service_step(s, r).stack == under_operands(s.stack).push(
            if r.flags_of().0 && r.flags_of().1 { ONE_WORD } else { ZERO_WORD }),
        byte_at(s) == 0x09 ==> service_request(s) == Request::Truths(lhs(s.stack), rhs(s.stack))
            && service_step(s, r).stack == under_operands(s.stack).push(
            if r.flags_of().0 || r.flags_of().1 { ONE_WORD } else { ZERO_WORD }),
        0x04 <= byte_at(s) <= 0x10 && byte_at(s) != 0x0A ==> service_step(s, r).pc == s.pc + 1
            && service_step(s, r).checks == s.checks && service_step(s, r).violations == s.violations
            && !service_step(s, r).halted && service_step(s, r).locals == s.locals,
{
}

/// A check (`0x16`) or an assert (`0x17`) pops its operand and counts one
/// check.  If the host reports the operand nonzero, that is all: no
/// violation, no halt, and the next byte runs next.  If it reports it zero,
/// one violation is counted, and an assert (only an assert) halts the run.
pub proof fn lemma_service_check_outcome(s: ServiceState, r: Reply)
    requires
        service_wf(s),
        !finished(s),
        byte_at(s) == 0x16 || byte_at(s) == 0x17,
    ensures
        s.stack.len() >= 1 ==> service_request(s) == Request::Truth(rhs(s.stack))
            && service_step(s, r).stack == s.stack.drop_last(),
        service_step(s, r).checks == s.checks + 1,
        service_step(s, r).pc == s.pc + 1,
        r.flag_of() ==> service_step(s, r).violations == s.violations
            && service_step(s, r).halted == s.halted && !service_step(s, r).halted,
        !r.flag_of() ==> service_step(s, r).violations == s.violations + 1
            && service_step(s, r).halted == (byte_at(s) == 0x17),
{
}

/// The halt flag is never raised without a violation counted in the same step.
pub proof fn lemma_service_halt_needs_violation(s: ServiceState, r: Reply)
    requires
        service_wf(s),
        !s.halted,
    ensures
        service_step(s, r).halted ==> service_step(s, r).violations == s.violations + 1,
{
}

/// The word of a constant by arithmetic: operand bytes 11 to 14 (code
/// bytes `i + 12` to `i + 15` for the opcode at `i`) times two to the 56th,
/// 48th, 40th and 32nd power.
pub open spec fn constant_value(code: Seq<u8>, i: int) -> int {
    code[i + 12] * 0x100_0000_0000_0000 + code[i + 13] * 0x1_0000_0000_0000 + code[i + 14]
        * 0x100_0000_0000 + code[i + 15] * 0x1_0000_0000
}

proof fn lemma_const_word_by_arithmetic(code: Seq<u8>, i: int)
    requires
        0 <= i,
        i + 16 <= code.len(),
    ensures
        const_word(code, i + 1) as int == constant_value(code, i),
{
    let a = code[i + 12];
    let b = code[i + 13];
    let c = code[i + 14];
    let d = code[i + 15];
    assert(((a as u64) << 56u64) | ((b as u64) << 48u64) | ((c as u64) << 40u64) | ((d as u64)
        << 32u64) == (a as u64) * 0x100_0000_0000_0000u64 + (b as u64) * 0x1_0000_0000_0000u64
        + (c as u64) * 0x100_0000_0000u64 + (d as u64) * 0x1_0000_0000u64) by (bit_vector);
}

/// What the remaining opcodes do.  A constant (`0x03`) with all fifteen
/// operand bytes present pushes the word of [`constant_value`] and moves past
/// them; cut short it pushes nothing and only its opcode is passed.  A load
/// (`0x01`) pushes the local its index byte names (zero past the locals; the
/// index is zero past the end of the code), a store (`0x02`) pops into it,
/// growing the locals with zeros to reach it; both pass their index byte.
/// Not (`0x0A`) pushes one for an operand the host reports zero, zero
/// otherwise.  End (`0x18`) moves past the code without a halt.  Every
/// other byte only moves to the next one.
pub proof fn lemma_service_opcode_effects(s: ServiceState, r: Reply)
    requires
        service_wf(s),
        !finished(s),
    ensures
        byte_at(s) == 0x03 && s.pc + 15 < s.code.len() ==> service_step(s, r).stack.len()
            == s.stack.len() + 1 && service_step(s, r).stack.drop_last() == s.stack
            && service_step(s, r).stack.last() as int == constant_value(s.code, s.pc as int)
            && service_step(s, r).pc == s.pc + 16,
        byte_at(s) == 0x03 && s.pc + 15 >= s.code.len() ==> service_step(s, r).stack == s.stack
            && service_step(s, r).pc == s.pc + 1,
        byte_at(s) == 0x01 ==> service_step(s, r).stack == s.stack.push(
            if (operand_at(s.code, s.pc + 1) as int) < s.locals.len() {
                s.locals[operand_at(s.code, s.pc + 1) as int]
            } else {
                ZERO_WORD
            },
        ) && service_step(s, r).locals == s.locals && service_step(s, r).pc == s.pc + 2,
        byte_at(s) == 0x01 || byte_at(s) == 0x02 ==> operand_at(s.code, s.pc + 1) == (if s.pc + 1
            < s.code.len() {
            s.code[s.pc + 1]
        } else {
            0u8
        }),
        byte_at(s) == 0x02 && s.stack.len() >= 1 ==> service_step(s, r).stack
            == s.stack.drop_last() && service_step(s, r).pc == s.pc + 2 && service_step(
            s,
            r,
        ).locals[operand_at(s.code, s.pc + 1) as int] == s.stack.last() && service_step(
            s,
            r,
        ).locals.len() == if (operand_at(s.code, s.pc + 1) as int) < s.locals.len() {
            s.locals.len() as int
        } else {
            operand_at(s.code, s.pc + 1) + 1
        },
        byte_at(s) == 0x0A && s.stack.len() >= 1 ==> service_request(s) == Request::Truth(
            rhs(s.stack),
        ) && service_step(s, r).stack == s.stack.drop_last().push(
            if r.flag_of() { ZERO_WORD } else { ONE_WORD },
        ) && service_step(s, r).pc == s.pc + 1,
        byte_at(s) == 0x18 ==> service_step(s, r).pc == s.code.len() && service_step(s, r).stack
            == s.stack && !service_step(s, r).halted && service_step(s, r).checks == s.checks,
        !(0x01 <= byte_at(s) <= 0x10 || 0x16 <= byte_at(s) <= 0x18) ==> service_step(s, r)
            == service_skip(s),
        byte_at(s) != 0x16 && byte_at(s) != 0x17 ==> service_request(s) == Request::Nothing
            || 0x04 <= byte_at(s) <= 0x10,
{
    if byte_at(s) == 0x03 && s.pc + 15 < s.code.len() {
        lemma_const_word_by_arithmetic(s.code, s.pc as int);
    }
}

/// The interpreter after a byte that does nothing: only `pc` moves on.
pub open spec fn service_skip(s: ServiceState) -> ServiceState {
    ServiceState { pc: (s.pc + 1) as usize, ..s }
}

} // verus!
